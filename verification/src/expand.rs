//! Expansion of path-like strings: `$NAME` and `${NAME}` are replaced by the
//! variable's value, a leading `~` by the home directory.
//!
//! The variables and the home directory are handed in as an [`Environment`],
//! so that an expansion depends on its arguments alone.

use vstd::prelude::*;

verus! {

/// The variables and the home directory that an expansion may refer to.
#[derive(Clone, Debug)]
pub struct Environment {
    /// The home directory, where one is known.
    pub home: Option<String>,
    /// The variables, each name with its value. Of two entries with one name
    /// the first counts.
    pub vars: Vec<(String, String)>,
}

/// A path-like string that refers to a variable that is not defined.
#[derive(Clone, Debug)]
pub struct ExpansionError {
    /// The name of the variable.
    pub variable: String,
}

/// The value of the first of `vars` that is named `name`.
pub open spec fn first_value(vars: Seq<(Seq<char>, Seq<char>)>, name: Seq<char>) -> Option<
    Seq<char>,
>
    decreases vars.len(),
{
    if vars.len() == 0 {
        None
    } else if vars[0].0 == name {
        Some(vars[0].1)
    } else {
        first_value(vars.skip(1), name)
    }
}

/// What shell-like expansion makes of `input`, given the home directory and
/// the variables: the expanded text, or the name of a variable that the input
/// refers to without a default and that is not among `vars`.
pub uninterp spec fn shell_expansion(
    input: Seq<char>,
    home: Option<Seq<char>>,
    vars: Seq<(Seq<char>, Seq<char>)>,
) -> Result<Seq<char>, Seq<char>>;

/// The expansion of a string that holds no `$`, where it is plain: a string
/// that does not begin with `~` stays as it is; in one that is `~` or begins
/// with `~/`, the `~` is replaced by the home directory, and stays where none
/// is known. Of other strings this says nothing.
pub open spec fn plain_expansion(input: Seq<char>, home: Option<Seq<char>>) -> Option<Seq<char>> {
    if input.contains('$') {
        None
    } else if input.len() > 0 && input[0] == '~' {
        if input.len() == 1 || input[1] == '/' {
            match home {
                Some(h) => Some(h + input.skip(1)),
                None => Some(input),
            }
        } else {
            None
        }
    } else {
        Some(input)
    }
}

impl Environment {
    /// The variables as plain values.
    pub open spec fn vars_view(&self) -> Seq<(Seq<char>, Seq<char>)> {
        Seq::new(self.vars@.len(), |i: int| (self.vars@[i].0@, self.vars@[i].1@))
    }

    /// The home directory as a plain value.
    pub open spec fn home_view(&self) -> Option<Seq<char>> {
        match self.home {
            Some(h) => Some(h@),
            None => None,
        }
    }

    /// The value of the variable `name`, where it is defined.
    pub fn lookup(&self, name: &str) -> (r: Option<String>)
        ensures
            r.is_some() == first_value(self.vars_view(), name@).is_some(),
            r.is_some() ==> r.unwrap()@ == first_value(self.vars_view(), name@).unwrap(),
    {
        let wanted = name.to_owned();
        let mut i: usize = 0;
        assert(self.vars_view().skip(0) =~= self.vars_view());
        while i < self.vars.len()
            invariant
                i <= self.vars.len(),
                wanted@ == name@,
                first_value(self.vars_view(), name@) == first_value(
                    self.vars_view().skip(i as int),
                    name@,
                ),
            decreases self.vars.len() - i,
        {
            let ghost rest = self.vars_view().skip(i as int);
            assert(rest[0] == self.vars_view()[i as int]);
            assert(rest.skip(1) =~= self.vars_view().skip(i + 1));
            if self.vars[i].0 == wanted {
                return Some(self.vars[i].1.clone());
            }
            i += 1;
        }
        None
    }

    /// The home directory, where one is known.
    pub fn home_dir(&self) -> (r: Option<String>)
        ensures
            r.is_some() == self.home.is_some(),
            r.is_some() ==> r.unwrap()@ == self.home.unwrap()@,
    {
        match &self.home {
            Some(h) => Some(h.clone()),
            None => None,
        }
    }
}

/// `shellexpand::full_with_context` on `input`, with the home directory and
/// the variables of `env`; a variable that `env` does not define is an error
/// to it. The result depends on the input, the home directory and the
/// variables alone: the contract gives it its name. An error carries the name
/// of the variable. Without a `$` in it the input is only looked at for a
/// leading `~`, which [`plain_expansion`] states.
#[verifier::external_body]
fn expand_with(input: &str, env: &Environment) -> (r: Result<String, String>)
    ensures
        match shell_expansion(input@, env.home_view(), env.vars_view()) {
            Ok(text) => r.is_ok() && r.unwrap()@ == text,
            Err(name) => r.is_err() && r.unwrap_err()@ == name,
        },
        plain_expansion(input@, env.home_view()) matches Some(text) ==> r.is_ok() && r.unwrap()@
            == text,
{
    shellexpand::full_with_context(input, || env.home_dir(), |name| env.lookup(name).map(Some).ok_or(()))
        .map(|s| s.into_owned())
        .map_err(|e| e.var_name)
}

/// Expands the variables and the leading `~` of a path-like string. It fails
/// exactly where the expansion does: on a reference to a variable that `env`
/// does not define and for which the string gives no default. The error names
/// that variable. A string without `$` is expanded as [`plain_expansion`]
/// says.
pub fn expand_path(path: &str, env: &Environment) -> (r: Result<String, ExpansionError>)
    ensures
        match shell_expansion(path@, env.home_view(), env.vars_view()) {
            Ok(text) => r.is_ok() && r.unwrap()@ == text,
            Err(name) => r.is_err() && r.unwrap_err().variable@ == name,
        },
        plain_expansion(path@, env.home_view()) matches Some(text) ==> r.is_ok() && r.unwrap()@
            == text,
{
    match expand_with(path, env) {
        Ok(text) => Ok(text),
        Err(variable) => Err(ExpansionError { variable }),
    }
}

} // verus!
