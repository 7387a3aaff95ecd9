//! The configured targets, kept in the order of their names, and what a
//! target's hook asks for.

use vstd::prelude::*;
use crate::expand::{expand_path, shell_expansion, Environment};
use crate::text::{decimal, decimal_text, join_words, joined};

verus! {

/// One target: a template, where its rendering goes, and what to run then.
#[derive(Clone, Debug)]
pub struct Target {
    /// Path of the template to populate.
    pub template: String,
    /// Path to write the populated template to.
    pub out: String,
    /// The command to run once `out` is written: the program, then its
    /// arguments.
    pub hook: Option<Vec<String>>,
}

/// Why a hook did not succeed.
#[derive(Clone, Debug)]
pub enum HookError {
    /// The hook has no part at all: there is nothing to run.
    Empty,
    /// The part at index `part` could not be expanded: it refers to the
    /// variable `variable`, which is not defined.
    Expansion { part: usize, variable: String },
    /// The program could not be started.
    NotStarted { reason: String },
    /// The program ended with an exit code other than 0.
    Exit { code: i32 },
    /// The program was ended by a signal.
    Signal,
}

impl HookError {
    /// What the error says of the hook `command`, whose parts are written
    /// as configured, with a blank between each two.
    pub open spec fn message_text(self, command: Seq<String>) -> Seq<char> {
        match self {
            HookError::Empty => "a hook should have at least one part"@,
            HookError::Expansion { .. } => "Failed to expand variables in hook: "@ + joined(
                command,
                " "@,
            ),
            HookError::NotStarted { .. } => "Failed to execute hook "@ + joined(command, " "@),
            HookError::Exit { code, .. } => "Hook '"@ + joined(command, " "@)
                + "' failed with status: "@ + decimal(code as int),
            HookError::Signal => "Hook '"@ + joined(command, " "@)
                + "' failed with status: (command terminated by signal)"@,
        }
    }

    /// The message of the error, for the hook `command` that it came from.
    pub fn message(&self, command: &Vec<String>) -> (r: String)
        ensures
            r@ == self.message_text(command@),
    {
        let line = join_words(command, " ");
        match self {
            HookError::Empty => "a hook should have at least one part".to_owned(),
            HookError::Expansion { .. } => {
                let mut text = "Failed to expand variables in hook: ".to_owned();
                text.append(line.as_str());
                text
            },
            HookError::NotStarted { .. } => {
                let mut text = "Failed to execute hook ".to_owned();
                text.append(line.as_str());
                text
            },
            HookError::Exit { code, .. } => {
                let mut text = "Hook '".to_owned();
                text.append(line.as_str());
                text.append("' failed with status: ");
                let status = decimal_text(*code);
                text.append(status.as_str());
                text
            },
            HookError::Signal => {
                let mut text = "Hook '".to_owned();
                text.append(line.as_str());
                text.append("' failed with status: (command terminated by signal)");
                text
            },
        }
    }
}

/// What is to be done for a target's hook.
#[derive(Clone, Debug)]
pub enum HookPlan {
    /// The target has no hook.
    Nothing,
    /// Run the program named first with the others as its arguments.
    Spawn(Vec<String>),
}

/// How an attempt to run a hook ended.
#[derive(Clone, Debug)]
pub enum HookOutcome {
    /// The program ran and ended with this exit code.
    Exited(i32),
    /// The program ran and was ended by a signal.
    Signaled,
    /// The program could not be started.
    NotStarted(String),
}

/// What `parts[i]` expands to in `env`.
pub open spec fn part_expansion(parts: Seq<String>, i: int, env: Environment) -> Result<
    Seq<char>,
    Seq<char>,
> {
    shell_expansion(parts[i]@, env.home_view(), env.vars_view())
}

/// `argv` holds what each part of `parts` expands to.
pub open spec fn expands_to(parts: Seq<String>, env: Environment, argv: Seq<String>) -> bool {
    argv.len() == parts.len() && forall|k: int|
        0 <= k < parts.len() ==> part_expansion(parts, k, env) == Ok::<Seq<char>, Seq<char>>(
            #[trigger] argv[k]@,
        )
}

/// The part at index `part` is the first of `parts` whose expansion fails,
/// and `variable` is the undefined variable that it fails on.
pub open spec fn first_undefined(
    parts: Seq<String>,
    env: Environment,
    part: int,
    variable: Seq<char>,
) -> bool {
    0 <= part < parts.len() && part_expansion(parts, part, env) == Err::<Seq<char>, Seq<char>>(
        variable,
    ) && forall|k: int| 0 <= k < part ==> (#[trigger] part_expansion(parts, k, env)).is_ok()
}

impl Target {
    /// Decides what a target's hook asks for. No hook: nothing. A hook
    /// without parts is an error, and nothing is to be run. Otherwise every
    /// part is expanded, in order: the first whose expansion fails is the
    /// error, and where there is none the expanded parts are the command to
    /// run.
    pub fn run_hook(&self, env: &Environment) -> (r: Result<HookPlan, HookError>)
        ensures
            match self.hook {
                None => r matches Ok(HookPlan::Nothing),
                Some(parts) => if parts@.len() == 0 {
                    r matches Err(HookError::Empty)
                } else {
                    match r {
                        Ok(HookPlan::Spawn(argv)) => expands_to(parts@, *env, argv@),
                        Err(HookError::Expansion { part, variable }) => first_undefined(
                            parts@,
                            *env,
                            part as int,
                            variable@,
                        ),
                        _ => false,
                    }
                },
            },
    {
        match &self.hook {
            None => Ok(HookPlan::Nothing),
            Some(parts) => {
                if parts.len() == 0 {
                    return Err(HookError::Empty);
                }
                let mut argv: Vec<String> = Vec::new();
                let mut i: usize = 0;
                while i < parts.len()
                    invariant
                        self.hook == Some(*parts),
                        0 < parts.len(),
                        i <= parts.len(),
                        argv@.len() == i,
                        forall|k: int|
                            0 <= k < i ==> part_expansion(parts@, k, *env) == Ok::<
                                Seq<char>,
                                Seq<char>,
                            >(#[trigger] argv@[k]@),
                        forall|k: int|
                            0 <= k < i ==> (#[trigger] part_expansion(parts@, k, *env)).is_ok(),
                    decreases parts.len() - i,
                {
                    match expand_path(parts[i].as_str(), env) {
                        Ok(text) => {
                            argv.push(text);
                        },
                        Err(e) => {
                            return Err(HookError::Expansion { part: i, variable: e.variable });
                        },
                    }
                    i += 1;
                }
                Ok(HookPlan::Spawn(argv))
            },
        }
    }

    /// Judges how a hook ended: exit code 0 is success, anything else the
    /// error that says what happened.
    pub fn hook_finished(outcome: HookOutcome) -> (r: Result<(), HookError>)
        ensures
            match outcome {
                HookOutcome::Exited(code) => if code == 0 {
                    r.is_ok()
                } else {
                    r matches Err(HookError::Exit { code: c }) && c == code
                },
                HookOutcome::Signaled => r matches Err(HookError::Signal),
                HookOutcome::NotStarted(reason) => r matches Err(HookError::NotStarted { reason: t })
                    && t == reason,
            },
    {
        match outcome {
            HookOutcome::Exited(code) => if code == 0 {
                Ok(())
            } else {
                Err(HookError::Exit { code })
            },
            HookOutcome::Signaled => Err(HookError::Signal),
            HookOutcome::NotStarted(reason) => Err(HookError::NotStarted { reason }),
        }
    }
}

/// How two names stand to each other in the order of the targets.
#[derive(Clone, Copy, Debug, PartialEq, Eq, Structural)]
pub enum NameOrder {
    Before,
    Same,
    After,
}

/// `a` and `b` agree on their first `k` characters, and there `a` ends while
/// `b` goes on, or `a` has the smaller character.
pub open spec fn comes_before_at(a: Seq<char>, b: Seq<char>, k: int) -> bool {
    &&& 0 <= k <= a.len()
    &&& k <= b.len()
    &&& forall|i: int| 0 <= i < k ==> a[i] == b[i]
    &&& k < b.len()
    &&& k == a.len() || (a[k] as int) < (b[k] as int)
}

/// `a` stands before `b` in lexicographic order.
pub open spec fn comes_before(a: Seq<char>, b: Seq<char>) -> bool {
    exists|k: int| comes_before_at(a, b, k)
}

/// Lexicographic order is transitive.
pub proof fn comes_before_transitive(a: Seq<char>, b: Seq<char>, c: Seq<char>)
    requires
        comes_before(a, b),
        comes_before(b, c),
    ensures
        comes_before(a, c),
{
    let k1 = choose|k: int| comes_before_at(a, b, k);
    let k2 = choose|k: int| comes_before_at(b, c, k);
    let k = if k1 <= k2 {
        k1
    } else {
        k2
    };
    assert(comes_before_at(a, c, k));
}

/// Of two names exactly one holds: the first stands before the second, they
/// are the same, or the second stands before the first.
pub proof fn comes_before_exclusive(a: Seq<char>, b: Seq<char>)
    ensures
        !(comes_before(a, b) && a == b),
        !(comes_before(a, b) && comes_before(b, a)),
        comes_before(a, b) || a == b || comes_before(b, a),
{
    if comes_before(a, b) && comes_before(b, a) {
        let k1 = choose|k: int| comes_before_at(a, b, k);
        let k2 = choose|k: int| comes_before_at(b, a, k);
        assert(k1 == k2) by {
            if k1 < k2 {
                assert(b[k1] == a[k1]);
            } else if k2 < k1 {
                assert(a[k2] == b[k2]);
            }
        }
    }
    if !comes_before(a, b) && !comes_before(b, a) {
        first_difference(a, b, 0);
    }
}

/// Two names that agree on their first `k` characters, neither before the
/// other, are the same.
proof fn first_difference(a: Seq<char>, b: Seq<char>, k: int)
    requires
        0 <= k <= a.len(),
        k <= b.len(),
        forall|i: int| 0 <= i < k ==> a[i] == b[i],
        !comes_before(a, b),
        !comes_before(b, a),
    ensures
        a == b,
    decreases a.len() - k,
{
    assert(!comes_before_at(a, b, k));
    assert(!comes_before_at(b, a, k));
    if k == a.len() {
        assert(a =~= b);
    } else {
        assert(a[k] as int == b[k] as int);
        first_difference(a, b, k + 1);
    }
}

/// Finds how `a` stands to `b` in lexicographic order.
pub fn name_order(a: &str, b: &str) -> (r: NameOrder)
    ensures
        (r == NameOrder::Before) == comes_before(a@, b@),
        (r == NameOrder::Same) == (a@ == b@),
        (r == NameOrder::After) == comes_before(b@, a@),
{
    proof {
        comes_before_exclusive(a@, b@);
    }
    let la = a.unicode_len();
    let lb = b.unicode_len();
    let mut i: usize = 0;
    while i < la && i < lb
        invariant
            la == a@.len(),
            lb == b@.len(),
            i <= la,
            i <= lb,
            forall|j: int| 0 <= j < i ==> a@[j] == b@[j],
        decreases la - i,
    {
        let ca = a.get_char(i);
        let cb = b.get_char(i);
        if ca != cb {
            if (ca as u32) < (cb as u32) {
                assert(comes_before_at(a@, b@, i as int));
                return NameOrder::Before;
            } else {
                assert(comes_before_at(b@, a@, i as int));
                return NameOrder::After;
            }
        }
        i += 1;
    }
    if la < lb {
        assert(comes_before_at(a@, b@, i as int));
        NameOrder::Before
    } else if lb < la {
        assert(comes_before_at(b@, a@, i as int));
        NameOrder::After
    } else {
        assert(a@ =~= b@);
        NameOrder::Same
    }
}

/// The targets of a run, each under its name, in the order of the names.
#[derive(Clone, Debug)]
pub struct Config {
    /// The targets with their names. See [`Config::wf`].
    pub targets: Vec<(String, Target)>,
}

impl Config {
    /// Each name stands before every name that is held after it: the targets
    /// are in lexicographic order of their names, and no name occurs twice.
    pub open spec fn wf(&self) -> bool {
        forall|i: int, j: int|
            0 <= i < j < self.targets@.len() ==> comes_before(
                #[trigger] self.targets@[i].0@,
                #[trigger] self.targets@[j].0@,
            )
    }

    /// Whether a target is held under `name`.
    pub open spec fn has(&self, name: Seq<char>) -> bool {
        exists|i: int| 0 <= i < self.targets@.len() && #[trigger] self.targets@[i].0@ == name
    }

    /// In a configuration that is in order no name is held twice.
    pub proof fn names_are_distinct(&self, i: int, j: int)
        requires
            self.wf(),
            0 <= i < self.targets@.len(),
            0 <= j < self.targets@.len(),
            i != j,
        ensures
            self.targets@[i].0@ != self.targets@[j].0@,
    {
        comes_before_exclusive(self.targets@[i].0@, self.targets@[j].0@);
        comes_before_exclusive(self.targets@[j].0@, self.targets@[i].0@);
    }

    /// A configuration without targets.
    pub fn new() -> (config: Config)
        ensures
            config.wf(),
            config.targets@.len() == 0,
    {
        Config { targets: Vec::new() }
    }

    /// The number of targets.
    pub fn len(&self) -> (n: usize)
        ensures
            n == self.targets@.len(),
    {
        self.targets.len()
    }

    /// Whether the targets are held in the order of their names, as
    /// [`Config::insert`] leaves them.
    pub fn in_order(&self) -> (r: bool)
        ensures
            r == self.wf(),
    {
        let n = self.targets.len();
        let mut i: usize = 1;
        while i < n
            invariant
                n == self.targets@.len(),
                1 <= i,
                forall|p: int, q: int|
                    0 <= p < q < i && q < n ==> comes_before(
                        #[trigger] self.targets@[p].0@,
                        #[trigger] self.targets@[q].0@,
                    ),
            decreases n - i,
        {
            match name_order(self.targets[i - 1].0.as_str(), self.targets[i].0.as_str()) {
                NameOrder::Before => {},
                _ => {
                    proof {
                        comes_before_exclusive(
                            self.targets@[i - 1].0@,
                            self.targets@[i as int].0@,
                        );
                    }
                    return false;
                },
            }
            proof {
                assert forall|p: int| 0 <= p < i implies comes_before(
                    #[trigger] self.targets@[p].0@,
                    self.targets@[i as int].0@,
                ) by {
                    if p < i - 1 {
                        comes_before_transitive(
                            self.targets@[p].0@,
                            self.targets@[i - 1].0@,
                            self.targets@[i as int].0@,
                        );
                    }
                }
            }
            i += 1;
        }
        true
    }

    /// Puts `target` under `name`. Where a target is held under that name it
    /// is replaced, and else the new one goes to the place that keeps the
    /// names in order. The other targets stay as they are.
    pub fn insert(&mut self, name: String, target: Target)
        requires
            old(self).wf(),
        ensures
            final(self).wf(),
            final(self).has(name@),
            old(self).has(name@) ==> exists|i: int|
                0 <= i < old(self).targets@.len() && old(self).targets@[i].0@ == name@
                    && final(self).targets@ == #[trigger] old(self).targets@.update(
                    i,
                    (name, target),
                ),
            !old(self).has(name@) ==> exists|i: int|
                0 <= i <= old(self).targets@.len() && final(self).targets@
                    == #[trigger] old(self).targets@.insert(i, (name, target)),
    {
        let mut i: usize = 0;
        let mut placed = false;
        while i < self.targets.len() && !placed
            invariant
                *self == *old(self),
                self.wf(),
                i <= self.targets.len(),
                forall|j: int| 0 <= j < i ==> comes_before(#[trigger] self.targets@[j].0@, name@),
                placed ==> i < self.targets.len() && comes_before(name@, self.targets@[i as int].0@),
            decreases self.targets.len() - i + if placed { 0int } else { 1int },
        {
            match name_order(self.targets[i].0.as_str(), name.as_str()) {
                NameOrder::Before => {
                    i += 1;
                },
                NameOrder::Same => {
                    let ghost before = self.targets@;
                    self.targets.set(i, (name, target));
                    assert(old(self).targets@ == before);
                    assert(self.targets@[i as int].0@ == name@);
                    assert forall|p: int, q: int| 0 <= p < q < self.targets@.len() implies comes_before(
                        #[trigger] self.targets@[p].0@,
                        #[trigger] self.targets@[q].0@,
                    ) by {
                        assert(self.targets@[p].0@ == before[p].0@);
                        assert(self.targets@[q].0@ == before[q].0@);
                    }
                    return ;
                },
                NameOrder::After => {
                    placed = true;
                },
            }
        }
        proof {
            let before = self.targets@;
            assert forall|j: int| i <= j < before.len() implies comes_before(
                name@,
                #[trigger] before[j].0@,
            ) by {
                if j > i {
                    comes_before_transitive(name@, before[i as int].0@, before[j].0@);
                }
            }
            assert(!self.has(name@)) by {
                if self.has(name@) {
                    let k = choose|k: int| 0 <= k < before.len() && #[trigger] before[k].0@ == name@;
                    comes_before_exclusive(before[k].0@, name@);
                }
            }
        }
        let ghost before = self.targets@;
        self.targets.insert(i, (name, target));
        proof {
            let after = self.targets@;
            assert(after[i as int].0@ == name@);
            assert forall|p: int, q: int| 0 <= p < q < after.len() implies comes_before(
                #[trigger] after[p].0@,
                #[trigger] after[q].0@,
            ) by {
                if p < i {
                    assert(after[p] == before[p]);
                } else if p > i {
                    assert(after[p] == before[p - 1]);
                }
                if q < i {
                    assert(after[q] == before[q]);
                } else if q > i {
                    assert(after[q] == before[q - 1]);
                }
            }
        }
    }
}

/// The path that joining `part` to the path `base` gives.
pub uninterp spec fn joined_path(base: Seq<char>, part: Seq<char>) -> Seq<char>;

/// `std::path::Path::join` on two paths that are given and handed back as
/// text. The result depends on the two texts alone: the contract gives it its
/// name.
#[verifier::external_body]
fn join_path(base: &str, part: &str) -> (r: String)
    ensures
        r@ == joined_path(base@, part@),
{
    std::path::Path::new(base).join(part).to_string_lossy().into_owned()
}

/// Where the configuration file is looked for when no path is given:
/// `targets/config.toml` under the configuration directory, which is
/// `.config` under the home directory where none is set.
pub open spec fn default_location(config_home: Option<Seq<char>>, home: Option<Seq<char>>) -> Option<
    Seq<char>,
> {
    match config_home {
        Some(dir) => Some(joined_path(joined_path(dir, "targets"@), "config.toml"@)),
        None => match home {
            Some(h) => Some(
                joined_path(
                    joined_path(joined_path(h, ".config"@), "targets"@),
                    "config.toml"@,
                ),
            ),
            None => None,
        },
    }
}

/// The path of the configuration file when none is given, from the values
/// of `XDG_CONFIG_HOME` and `HOME`, each where it is set. With neither there
/// is no such path.
pub fn default_config_path(config_home: Option<&str>, home: Option<&str>) -> (r: Option<String>)
    ensures
        match default_location(
            match config_home {
                Some(d) => Some(d@),
                None => None,
            },
            match home {
                Some(h) => Some(h@),
                None => None,
            },
        ) {
            Some(path) => r.is_some() && r.unwrap()@ == path,
            None => r.is_none(),
        },
{
    let base = match config_home {
        Some(dir) => dir.to_owned(),
        None => match home {
            Some(h) => join_path(h, ".config"),
            None => {
                return None;
            },
        },
    };
    let dir = join_path(base.as_str(), "targets");
    Some(join_path(dir.as_str(), "config.toml"))
}

/// The path of the configuration file: the explicit one where there is one,
/// else the default location.
pub open spec fn config_location(
    explicit: Option<Seq<char>>,
    config_home: Option<Seq<char>>,
    home: Option<Seq<char>>,
) -> Option<Seq<char>> {
    match explicit {
        Some(path) => Some(path),
        None => default_location(config_home, home),
    }
}

/// The path to read the configuration from: `explicit` where it is given,
/// else the default location, which needs one of `XDG_CONFIG_HOME` and
/// `HOME`.
pub fn config_path(explicit: Option<&str>, config_home: Option<&str>, home: Option<&str>) -> (r:
    Option<String>)
    ensures
        match config_location(
            match explicit {
                Some(p) => Some(p@),
                None => None,
            },
            match config_home {
                Some(d) => Some(d@),
                None => None,
            },
            match home {
                Some(h) => Some(h@),
                None => None,
            },
        ) {
            Some(path) => r.is_some() && r.unwrap()@ == path,
            None => r.is_none(),
        },
{
    match explicit {
        Some(path) => Some(path.to_owned()),
        None => default_config_path(config_home, home),
    }
}

} // verus!
