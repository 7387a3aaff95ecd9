//! The formats a values document may be written in, and how one is chosen.

use vstd::prelude::*;

verus! {

/// A format of the values document.
#[derive(Clone, Copy, Debug, PartialEq, Eq, Structural)]
pub enum ValuesFormat {
    Json,
    Yaml,
    Toml,
}

impl Default for ValuesFormat {
    fn default() -> (f: ValuesFormat)
        ensures
            f == ValuesFormat::Json,
    {
        ValuesFormat::Json
    }
}

/// The format that a file extension stands for: `json`, `yaml` or `yml`,
/// `toml`; anything else is JSON.
pub open spec fn format_of_extension(ext: Seq<char>) -> ValuesFormat {
    if ext == "yaml"@ || ext == "yml"@ {
        ValuesFormat::Yaml
    } else if ext == "toml"@ {
        ValuesFormat::Toml
    } else {
        ValuesFormat::Json
    }
}

/// The extension of a path's file name, where it has one that is valid text.
pub uninterp spec fn path_extension(path: Seq<char>) -> Option<Seq<char>>;

/// The format that a path's extension stands for; JSON where it has none.
pub open spec fn format_of_path(path: Seq<char>) -> ValuesFormat {
    match path_extension(path) {
        Some(ext) => format_of_extension(ext),
        None => ValuesFormat::Json,
    }
}

/// The format a run reads its values in: the explicit choice where there is
/// one, else what the values file's path says, else JSON.
pub open spec fn chosen_format(explicit: Option<ValuesFormat>, file: Option<Seq<char>>) -> ValuesFormat {
    match explicit {
        Some(f) => f,
        None => match file {
            Some(path) => format_of_path(path),
            None => ValuesFormat::Json,
        },
    }
}

/// Calls `std::path::Path::extension` on `path` and hands the extension back
/// as text. The contract only gives the result its name: it depends on the
/// path's text alone.
#[verifier::external_body]
fn extension_of(path: &str) -> (r: Option<String>)
    ensures
        r.is_some() == path_extension(path@).is_some(),
        r.is_some() ==> r.unwrap()@ == path_extension(path@).unwrap(),
{
    std::path::Path::new(path).extension().and_then(|e| e.to_str()).map(|e| e.to_owned())
}

impl ValuesFormat {
    /// The name of the format, which is also the extension that stands for it.
    pub open spec fn name_text(self) -> Seq<char> {
        match self {
            ValuesFormat::Json => "json"@,
            ValuesFormat::Yaml => "yaml"@,
            ValuesFormat::Toml => "toml"@,
        }
    }

    /// The name of the format.
    pub fn name(&self) -> (r: &'static str)
        ensures
            r@ == self.name_text(),
    {
        match self {
            ValuesFormat::Json => "json",
            ValuesFormat::Yaml => "yaml",
            ValuesFormat::Toml => "toml",
        }
    }

    /// The name of a format, taken as an extension, stands for that format.
    pub proof fn name_stands_for_format(self)
        ensures
            format_of_extension(self.name_text()) == self,
    {
        reveal_strlit("json");
        reveal_strlit("yaml");
        reveal_strlit("yml");
        reveal_strlit("toml");
        assert("json"@.len() == 4 && "yml"@.len() == 3);
        assert("json"@[0] == 'j' && "yaml"@[0] == 'y' && "toml"@[0] == 't');
    }

    /// The format that the extension `ext` stands for.
    pub fn from_extension(ext: &str) -> (f: ValuesFormat)
        ensures
            f == format_of_extension(ext@),
    {
        let ext = ext.to_owned();
        let yaml = "yaml".to_owned();
        let yml = "yml".to_owned();
        let toml = "toml".to_owned();
        if ext == yaml || ext == yml {
            ValuesFormat::Yaml
        } else if ext == toml {
            ValuesFormat::Toml
        } else {
            ValuesFormat::Json
        }
    }

    /// The format that the extension of `path` stands for.
    pub fn from_path(path: &str) -> (f: ValuesFormat)
        ensures
            f == format_of_path(path@),
    {
        match extension_of(path) {
            Some(ext) => ValuesFormat::from_extension(ext.as_str()),
            None => ValuesFormat::Json,
        }
    }

    /// The format to read the values in, given the explicit choice and the
    /// path of the values file, each where there is one.
    pub fn select(explicit: Option<ValuesFormat>, file: Option<&str>) -> (f: ValuesFormat)
        ensures
            f == chosen_format(
                explicit,
                match file {
                    Some(p) => Some(p@),
                    None => None,
                },
            ),
    {
        match explicit {
            Some(f) => f,
            None => match file {
                Some(path) => ValuesFormat::from_path(path),
                None => ValuesFormat::Json,
            },
        }
    }
}

} // verus!
