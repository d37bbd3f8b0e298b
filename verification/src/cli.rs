//! The command line: the program takes no arguments but `--help` and
//! `--version`, and names itself after the file it was started from.

use vstd::prelude::*;

use crate::text::{chars_of, string_of};

verus! {

/// What `std::path::Path::file_name` gives for the path `p`, read as text.
pub uninterp spec fn file_name_of(p: Seq<char>) -> Option<Seq<char>>;

/// Calls `Path::new(p).file_name()` and reads the name as text. Its result
/// is named `file_name_of`; std documents it as the final component of the
/// path, `None` when the path ends in `..`; a name taken from a `&str` is
/// always text, so the reading never fails.
#[verifier::external_body]
fn path_file_name(p: &str) -> (r: Option<String>)
    ensures
        match r {
            Some(x) => file_name_of(p@) == Some(x@),
            None => file_name_of(p@) is None,
        },
{
    match std::path::Path::new(p).file_name() {
        Some(name) => match name.to_str() {
            Some(text) => Some(text.to_string()),
            None => None,
        },
        None => None,
    }
}

/// What the command line asks for.
#[derive(Debug, PartialEq, Eq)]
pub enum CliOutcome {
    /// Start the application.
    Run,
    /// Print `text` on the standard output and exit with status 0.
    Print(String),
    /// Print `text` on the standard error and exit with status 2.
    Fail(String),
}

/// The name the usage line shows: the file name of the program's path, or
/// "todo".
pub open spec fn usage_name_of(binary: Option<Seq<char>>) -> Seq<char> {
    match binary {
        Some(b) => match file_name_of(b) {
            Some(n) => n,
            None => "todo"@,
        },
        None => "todo"@,
    }
}

/// The name the usage line shows for the program path `binary`.
pub open spec fn name_of(binary: Option<&str>) -> Seq<char> {
    usage_name_of(match binary {
        Some(b) => Some(b@),
        None => None,
    })
}

/// The name the usage line shows, as `usage_name_of` says.
pub fn usage_name(binary: Option<&str>) -> (r: String)
    ensures
        r@ == usage_name_of(match binary {
            Some(b) => Some(b@),
            None => None,
        }),
{
    match binary {
        Some(b) => match path_file_name(b) {
            Some(n) => n,
            None => "todo".to_string(),
        },
        None => "todo".to_string(),
    }
}

fn join(parts: &[&str]) -> (r: String)
    ensures
        r@ == joined(parts@.map_values(|p: &str| p@)),
{
    let mut out: Vec<char> = Vec::new();
    let mut i: usize = 0;
    while i < parts.len()
        invariant
            0 <= i <= parts.len(),
            out@ == joined(parts@.map_values(|p: &str| p@).take(i as int)),
        decreases parts.len() - i,
    {
        let cs = chars_of(parts[i]);
        let mut k: usize = 0;
        let ghost base = out@;
        while k < cs.len()
            invariant
                0 <= k <= cs.len(),
                out@ == base + cs@.take(k as int),
            decreases cs.len() - k,
        {
            out.push(cs[k]);
            assert(out@ =~= base + cs@.take(k + 1));
            k = k + 1;
        }
        proof {
            let ps = parts@.map_values(|p: &str| p@);
            assert(cs@.take(cs@.len() as int) =~= cs@);
            assert(ps.take(i + 1).drop_last() =~= ps.take(i as int));
        }
        i = i + 1;
    }
    assert(parts@.map_values(|p: &str| p@).take(parts@.len() as int) =~= parts@.map_values(|p: &str| p@));
    string_of(out.as_slice())
}

/// The texts of `parts` one after the other.
pub open spec fn joined(parts: Seq<Seq<char>>) -> Seq<char>
    decreases parts.len(),
{
    if parts.len() == 0 {
        Seq::empty()
    } else {
        joined(parts.drop_last()) + parts.last()
    }
}

/// The exit status that the first argument `arg` asks for: none (-1, the
/// program runs) when there is no argument, 0 for `-h`, `--help`, `-V` and
/// `--version`, 2 for anything else.
pub open spec fn cli_status(arg: Option<Seq<char>>) -> int {
    match arg {
        None => -1,
        Some(a) => if a == "-h"@ || a == "--help"@ || a == "-V"@ || a == "--version"@ {
            0
        } else {
            2
        },
    }
}

/// The text that the first argument `arg` asks the program called `name`
/// at version `version` to show: the usage on `-h` or `--help`, the version
/// on `-V` or `--version`, an error with the usage on anything else.
pub open spec fn cli_text(name: Seq<char>, version: Seq<char>, a: Seq<char>) -> Seq<char> {
    if a == "-h"@ || a == "--help"@ {
        "A terminal todo app\n\nUsage: "@ + name
    } else if a == "-V"@ || a == "--version"@ {
        name + " "@ + version
    } else {
        "error: unexpected argument '"@ + a + "'\n\nUsage: "@ + name
    }
}

proof fn lemma_joined(ps: Seq<Seq<char>>, x: Seq<char>)
    ensures
        joined(ps.push(x)) == joined(ps) + x,
{
    assert(ps.push(x).drop_last() =~= ps);
}

/// Decides what the command line asks, as `cli_outcome` says: `Run` for
/// status -1, `Print` for 0 and `Fail` for 2, with the text to show.
pub fn parse_args(binary: Option<&str>, arg: Option<&str>, version: &str) -> (r: CliOutcome)
    ensures
        arg is None <==> r is Run,
        arg is Some ==> match r {
            CliOutcome::Print(t) => cli_status(Some(arg->0@)) == 0 && t@ == cli_text(name_of(binary), version@, arg->0@),
            CliOutcome::Fail(t) => cli_status(Some(arg->0@)) == 2 && t@ == cli_text(name_of(binary), version@, arg->0@),
            CliOutcome::Run => false,
        },
{
    let name = usage_name(binary);
    proof {
        reveal_strlit("-h");
        reveal_strlit("--help");
        reveal_strlit("-V");
        reveal_strlit("--version");
    }
    match arg {
        None => CliOutcome::Run,
        Some(a) => {
            let help = crate::text::str_eq(a, "-h") || crate::text::str_eq(a, "--help");
            let ver = crate::text::str_eq(a, "-V") || crate::text::str_eq(a, "--version");
            if help {
                let head = "A terminal todo app\n\nUsage: ";
                let parts = [head, name.as_str()];
                let t = join(&parts);
                proof {
                    let e = Seq::<Seq<char>>::empty();
                    lemma_joined(e, head@);
                    lemma_joined(e.push(head@), name@);
                    assert(parts@.map_values(|p: &str| p@) =~= e.push(head@).push(name@));
                }
                CliOutcome::Print(t)
            } else if ver {
                let parts = [name.as_str(), " ", version];
                let t = join(&parts);
                proof {
                    let e = Seq::<Seq<char>>::empty();
                    lemma_joined(e, name@);
                    lemma_joined(e.push(name@), " "@);
                    lemma_joined(e.push(name@).push(" "@), version@);
                    assert(parts@.map_values(|p: &str| p@) =~= e.push(name@).push(" "@).push(version@));
                }
                CliOutcome::Print(t)
            } else {
                let head = "error: unexpected argument '";
                let tail = "'\n\nUsage: ";
                let parts = [head, a, tail, name.as_str()];
                let t = join(&parts);
                proof {
                    let e = Seq::<Seq<char>>::empty();
                    let p1 = e.push(head@);
                    let p2 = p1.push(a@);
                    let p3 = p2.push(tail@);
                    lemma_joined(e, head@);
                    lemma_joined(p1, a@);
                    lemma_joined(p2, tail@);
                    lemma_joined(p3, name@);
                    assert(parts@.map_values(|p: &str| p@) =~= p3.push(name@));
                }
                CliOutcome::Fail(t)
            }
        },
    }
}

} // verus!
