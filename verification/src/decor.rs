//! The text the platform decorators write next to the Blackhole folder: the
//! Windows `desktop.ini` sidecar and the macOS launch-agent property list.
//! Only the content is computed here; the host writes the files and applies
//! the filesystem attributes.

use vstd::prelude::*;
use vstd::string::StringExecFns;

use crate::host;
use crate::host::{ini_text, xml_escaped};

verus! {

/// The warning the folder's tooltip shows.
pub open spec fn info_tip() -> Seq<char> {
    "WARNING: All files stored here will be deleted at the next startup"@
}

/// The sections of the `desktop.ini` sidecar: the shell-class section that
/// suppresses operation confirmations, shows the warning tooltip, and (when
/// the executable's path is known) borrows the tool's icon; and a generic
/// view-state section.
pub open spec fn desktop_ini_sections(exe_path: Option<Seq<char>>) -> Seq<
    (Seq<char>, Seq<(Seq<char>, Seq<char>)>),
> {
    let shell_props = seq![("ConfirmFileOp"@, "0"@), ("InfoTip"@, info_tip())] + (
    match exe_path {
        Some(exe) => seq![("IconResource"@, exe + ",0"@)],
        None => Seq::<(Seq<char>, Seq<char>)>::empty(),
    });
    seq![
        (".ShellClassInfo"@, shell_props),
        ("ViewState"@, seq![("Mode"@, ""@), ("Vid"@, ""@), ("FolderType"@, "Generic"@)]),
    ]
}

/// The sections and properties of the `desktop.ini` sidecar, exactly as
/// `desktop_ini_sections` lays them out.
pub fn desktop_ini_properties(exe_path: Option<&String>) -> (r: Vec<
    (String, Vec<(String, String)>),
>)
    ensures
        r.deep_view() == desktop_ini_sections(
            match exe_path {
                Some(e) => Some(e@),
                None => None,
            },
        ),
{
    let ghost exe_view: Option<Seq<char>> = match exe_path {
        Some(e) => Some(e@),
        None => None,
    };
    let mut shell_props: Vec<(String, String)> = Vec::new();
    shell_props.push(("ConfirmFileOp".to_owned(), "0".to_owned()));
    shell_props.push((
        "InfoTip".to_owned(),
        "WARNING: All files stored here will be deleted at the next startup".to_owned(),
    ));
    match exe_path {
        Some(exe) => {
            let mut icon = exe.clone();
            icon.append(",0");
            shell_props.push(("IconResource".to_owned(), icon));
        },
        None => {},
    }
    let mut view_props: Vec<(String, String)> = Vec::new();
    view_props.push(("Mode".to_owned(), "".to_owned()));
    view_props.push(("Vid".to_owned(), "".to_owned()));
    view_props.push(("FolderType".to_owned(), "Generic".to_owned()));
    let mut sections: Vec<(String, Vec<(String, String)>)> = Vec::new();
    sections.push((".ShellClassInfo".to_owned(), shell_props));
    sections.push(("ViewState".to_owned(), view_props));
    proof {
        let expected = desktop_ini_sections(exe_view);
        assert(sections.deep_view()[0].1 =~= expected[0].1);
        assert(sections.deep_view()[1].1 =~= expected[1].1);
        assert(sections.deep_view() =~= expected);
    }
    sections
}

/// The full text of the `desktop.ini` sidecar for the Blackhole folder; the
/// icon entry is present exactly when the executable's path is known.
pub fn desktop_ini_content(exe_path: Option<&String>) -> (r: String)
    ensures
        r@ == ini_text(
            desktop_ini_sections(
                match exe_path {
                    Some(e) => Some(e@),
                    None => None,
                },
            ),
        ),
{
    let sections = desktop_ini_properties(exe_path);
    host::ini_render(&sections)
}

/// Whether the pattern occurs in `s` starting at position `k`.
pub open spec fn occurs_at(s: Seq<char>, pat: Seq<char>, k: int) -> bool {
    &&& 0 <= k
    &&& k + pat.len() <= s.len()
    &&& s.subrange(k, k + pat.len()) == pat
}

/// Replaces the first occurrence of `pat` in `s` with `repl`; a string without
/// an occurrence is returned unchanged.
#[verifier::rlimit(50)]
pub fn replace_first(s: &str, pat: &str, repl: &str) -> (r: String)
    ensures
        (forall|j: int| !occurs_at(s@, pat@, j)) ==> r@ == s@,
        (exists|j: int| occurs_at(s@, pat@, j)) ==> exists|k: int|
            {
                &&& #[trigger] occurs_at(s@, pat@, k)
                &&& forall|j: int| 0 <= j < k ==> !occurs_at(s@, pat@, j)
                &&& r@ == s@.subrange(0, k) + repl@ + s@.subrange(k + pat@.len(), s@.len() as int)
            },
{
    let n = s.unicode_len();
    let m = pat.unicode_len();
    if m > n {
        return s.to_owned();
    }
    if m == 0 {
        proof {
            assert(s@.subrange(0, 0) =~= pat@);
            assert(occurs_at(s@, pat@, 0));
        }
        let mut r = repl.to_owned();
        r.append(s);
        proof {
            assert(r@ =~= s@.subrange(0, 0) + repl@ + s@.subrange(0, s@.len() as int));
        }
        return r;
    }
    let mut k: usize = 0;
    while k <= n - m
        invariant
            1 <= m <= n,
            n == s@.len(),
            m == pat@.len(),
            0 <= k <= n - m + 1,
            forall|j: int| 0 <= j < k ==> !occurs_at(s@, pat@, j),
        decreases n - m + 1 - k,
    {
        let mut t: usize = 0;
        let mut hit = true;
        while t < m
            invariant
                0 <= t <= m,
                m <= n,
                k <= n - m,
                n == s@.len(),
                m == pat@.len(),
                hit ==> forall|u: int| 0 <= u < t ==> s@[k + u] == pat@[u],
                !hit ==> !occurs_at(s@, pat@, k as int),
            decreases m - t,
        {
            if hit {
                let a = s.get_char(k + t);
                let b = pat.get_char(t);
                if a != b {
                    proof {
                        if occurs_at(s@, pat@, k as int) {
                            assert(s@.subrange(k as int, k + m) == pat@);
                            assert(s@.subrange(k as int, k + m)[t as int] == s@[k + t]);
                            assert(a == b);
                        }
                        assert(!occurs_at(s@, pat@, k as int));
                    }
                    hit = false;
                }
            }
            t += 1;
        }
        if hit {
            proof {
                assert(s@.subrange(k as int, k + m) =~= pat@);
                assert(occurs_at(s@, pat@, k as int));
            }
            let mut r = s.substring_char(0, k).to_owned();
            r.append(repl);
            r.append(s.substring_char(k + m, n));
            proof {
                assert(r@ =~= s@.subrange(0, k as int) + repl@ + s@.subrange(k + m, n as int));
                assert(r@ == s@.subrange(0, k as int) + repl@ + s@.subrange(
                    k + pat@.len(),
                    s@.len() as int,
                ));
            }
            return r;
        }
        k += 1;
    }
    proof {
        // Every position up to `n - m` was probed; past it the pattern no
        // longer fits.
        assert(forall|j: int| !occurs_at(s@, pat@, j));
    }
    s.to_owned()
}

/// The placeholder the launch-agent template carries for the executable path.
pub open spec fn exe_placeholder() -> Seq<char> {
    "$BLACKHOLE_EXE_PATH"@
}

/// The text of the launch-agent property list that starts the purge at login:
/// the template with its first placeholder replaced by the XML-escaped
/// executable path.
pub fn launchd_plist_content(template: &String, exe_path: &String) -> (r: String)
    ensures
        (forall|j: int| !occurs_at(template@, exe_placeholder(), j)) ==> r@ == template@,
        (exists|j: int| occurs_at(template@, exe_placeholder(), j)) ==> exists|k: int|
            {
                &&& #[trigger] occurs_at(template@, exe_placeholder(), k)
                &&& forall|j: int| 0 <= j < k ==> !occurs_at(template@, exe_placeholder(), j)
                &&& r@ == template@.subrange(0, k) + xml_escaped(exe_path@) + template@.subrange(
                    k + exe_placeholder().len(),
                    template@.len() as int,
                )
            },
{
    let escaped = host::xml_escape(exe_path);
    replace_first(template.as_str(), "$BLACKHOLE_EXE_PATH", escaped.as_str())
}

} // verus!
