//! Where the files of this program stand.

use vstd::prelude::*;

use crate::text::chars_of;

verus! {

/// `part` below the directory `base`.
pub open spec fn joined(base: Seq<char>, part: Seq<char>) -> Seq<char> {
    if base.len() == 0 || base.last() == '/' {
        base + part
    } else {
        base.push('/') + part
    }
}

/// `part` below the directory `base`.
pub fn join(base: &str, part: &str) -> (r: String)
    ensures
        r@ == joined(base@, part@),
{
    let v = chars_of(base);
    let mut r = base.to_owned();
    if v.len() > 0 && v[v.len() - 1] != '/' {
        r.push('/');
    }
    r.append(part);
    r
}

/// The configuration directory: what `XDG_CONFIG_HOME` says, unless that is empty, else
/// `.config` below what `HOME` says.
pub open spec fn config_home(xdg: Option<Seq<char>>, home: Option<Seq<char>>) -> Option<Seq<char>> {
    if xdg matches Some(x) && x.len() > 0 {
        xdg
    } else {
        match home {
            Some(h) => Some(joined(h, ".config"@)),
            None => None,
        }
    }
}

/// The characters of an optional string.
pub open spec fn opt_view(s: Option<&str>) -> Option<Seq<char>> {
    match s {
        Some(x) => Some(x@),
        None => None,
    }
}

/// The configuration directory.
pub fn find_config_home(xdg: Option<&str>, home: Option<&str>) -> (r: Option<String>)
    ensures
        match r {
            Some(s) => config_home(opt_view(xdg), opt_view(home)) == Some(s@),
            None => config_home(opt_view(xdg), opt_view(home)) is None,
        },
{
    if let Some(x) = xdg {
        if !x.is_empty() {
            return Some(x.to_owned());
        }
    }
    match home {
        Some(h) => Some(join(h, ".config")),
        None => None,
    }
}

/// The path of a file of this program: the one that is given for it, unless that is empty, else
/// the file of the given name in this program's part of the configuration directory.
pub open spec fn file_path(
    given: Option<Seq<char>>,
    xdg: Option<Seq<char>>,
    home: Option<Seq<char>>,
    name: Seq<char>,
) -> Option<Seq<char>> {
    if given matches Some(g) && g.len() > 0 {
        given
    } else {
        match config_home(xdg, home) {
            Some(base) => Some(joined(joined(base, "presguel"@), name)),
            None => None,
        }
    }
}

/// The path of a file of this program.
pub fn find_file(given: Option<&str>, xdg: Option<&str>, home: Option<&str>, name: &str) -> (r: Option<
    String,
>)
    ensures
        match r {
            Some(s) => file_path(opt_view(given), opt_view(xdg), opt_view(home), name@) == Some(s@),
            None => file_path(opt_view(given), opt_view(xdg), opt_view(home), name@) is None,
        },
{
    if let Some(g) = given {
        if !g.is_empty() {
            return Some(g.to_owned());
        }
    }
    match find_config_home(xdg, home) {
        Some(base) => Some(join(join(base.as_str(), "presguel").as_str(), name)),
        None => None,
    }
}

/// The path of the settings document, by the values of the environment variables
/// `PRESGUEL_CONFIG`, `XDG_CONFIG_HOME` and `HOME`. The error says what is missing.
pub fn resolve_config_path(given: Option<&str>, xdg: Option<&str>, home: Option<&str>) -> (r: Result<
    String,
    String,
>)
    ensures
        match r {
            Ok(s) => file_path(opt_view(given), opt_view(xdg), opt_view(home), "nalgaeset.xml"@)
                == Some(s@),
            Err(e) => file_path(
                opt_view(given),
                opt_view(xdg),
                opt_view(home),
                "nalgaeset.xml"@,
            ) is None && e@ == "HOME/XDG_CONFIG_HOME 가 없음"@,
        },
{
    match find_file(given, xdg, home, "nalgaeset.xml") {
        Some(p) => Ok(p),
        None => Err("HOME/XDG_CONFIG_HOME 가 없음".to_owned()),
    }
}

/// A path below a directory is the directory and the part with one slash between them. Where the
/// directory is empty or ends with a slash, none is put in.
pub proof fn paths_are_joined_by_a_slash(base: Seq<char>, part: Seq<char>)
    ensures
        base.len() > 0 && base.last() != '/' ==> joined(base, part) == base + seq!['/'] + part,
        base.len() == 0 ==> joined(base, part) == part,
        joined(base.push('/'), part) == base + seq!['/'] + part,
{
    assert(joined(base.push('/'), part) =~= base + seq!['/'] + part);
    if base.len() == 0 {
        assert(joined(base, part) =~= part);
    } else if base.last() != '/' {
        assert(joined(base, part) =~= base + seq!['/'] + part);
    }
}

/// A file that is given is taken as it is given. Else it stands in the part of this program below
/// the configuration directory: that of `XDG_CONFIG_HOME` where it is set and not empty, else
/// `.config` in the home directory. Without either there is none. An empty value counts as none,
/// but for that of the home directory.
pub proof fn files_are_looked_for_in_order(
    given: Option<Seq<char>>,
    xdg: Option<Seq<char>>,
    home: Option<Seq<char>>,
    name: Seq<char>,
)
    ensures
        ({
            let r = file_path(given, xdg, home, name);
            let is_given = given matches Some(g) && g.len() > 0;
            let is_xdg = xdg matches Some(x) && x.len() > 0;
            &&& is_given ==> r == given
            &&& !is_given && is_xdg ==> r == Some(joined(joined(xdg->0, "presguel"@), name))
            &&& !is_given && !is_xdg && home is Some ==> r == Some(
                joined(joined(joined(home->0, ".config"@), "presguel"@), name),
            )
            &&& !is_given && !is_xdg && home is None ==> r is None
        }),
{
}

} // verus!
