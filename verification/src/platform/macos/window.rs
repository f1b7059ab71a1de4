//! Which macOS window may receive pasted text, and the names of the
//! applications that host the bridge (whose windows can be refused).
use vstd::prelude::*;

use crate::platform::types::WindowInfo;
use crate::platform::windows::window::{title_matches, title_passes};
use crate::text::{
    chars_eq, chars_eq_str, chars_of, is_blank, normalized, normalized_chars, str_is_blank,
    string_from_chars, to_string, trim, trim_str,
};

verus! {

/// The process names of the applications hosting the bridge.
pub struct MacosHostContext {
    host_process_names: Vec<String>,
}

/// The views of a list of names.
pub open spec fn name_views(v: Seq<String>) -> Seq<Seq<char>> {
    Seq::new(v.len(), |i: int| v[i]@)
}

/// Some name of `names` equals `candidate` when both are trimmed and
/// lower-cased.
pub open spec fn has_name(names: Seq<Seq<char>>, candidate: Seq<char>) -> bool {
    exists|i: int| 0 <= i < names.len() && #[trigger] normalized(names[i]) == normalized(candidate)
}

/// `names` with the trimmed `candidate` added, unless it is blank or already
/// there (ignoring case).
pub open spec fn spec_push_unique(names: Seq<Seq<char>>, candidate: Seq<char>) -> Seq<Seq<char>> {
    if is_blank(candidate) || has_name(names, trim(candidate)) {
        names
    } else {
        names.push(trim(candidate))
    }
}

/// No two names are equal when trimmed and lower-cased.
pub open spec fn distinct_names(names: Seq<Seq<char>>) -> bool {
    forall|i: int, j: int|
        0 <= i < j < names.len() ==> normalized(#[trigger] names[i]) != normalized(#[trigger] names[j])
}

/// Adding a name keeps the names distinct, and afterwards a non-blank
/// candidate is among them.
pub proof fn law_push_unique_keeps_distinct(names: Seq<Seq<char>>, candidate: Seq<char>)
    requires
        distinct_names(names),
    ensures
        distinct_names(spec_push_unique(names, candidate)),
        !is_blank(candidate) ==> has_name(spec_push_unique(names, candidate), candidate),
{
    crate::text::lemma_trim_idempotent(candidate);
    let r = spec_push_unique(names, candidate);
    if !is_blank(candidate) {
        if has_name(names, trim(candidate)) {
            let i = choose|i: int| 0 <= i < names.len() && #[trigger] normalized(names[i]) == normalized(trim(candidate));
            assert(normalized(r[i]) == normalized(candidate));
        } else {
            assert(r[names.len() as int] == trim(candidate));
            assert(normalized(r[names.len() as int]) == normalized(candidate));
        }
    }
}

/// `s` ends with `.app`.
pub open spec fn ends_with_app(s: Seq<char>) -> bool {
    s.len() >= 4 && s.subrange(s.len() - 4, s.len() as int) == ".app"@
}

/// `s` without a final `.app`.
pub open spec fn strip_app(s: Seq<char>) -> Seq<char> {
    s.subrange(0, s.len() - 4)
}

/// `names` with a host name and its aliases added: the name itself, the name
/// without `.app`, and the application names of the known terminals.
pub open spec fn spec_push_host_aliases(names: Seq<Seq<char>>, candidate: Seq<char>) -> Seq<Seq<char>> {
    let c = trim(candidate);
    if c.len() == 0 {
        names
    } else {
        let a = spec_push_unique(names, c);
        let b = if ends_with_app(c) {
            spec_push_unique(a, strip_app(c))
        } else {
            a
        };
        let n = normalized(c);
        if n == "apple_terminal"@ {
            spec_push_unique(b, "Terminal"@)
        } else if n == "iterm.app"@ || n == "iterm"@ || n == "iterm2"@ {
            spec_push_unique(spec_push_unique(b, "iTerm"@), "iTerm2"@)
        } else if n == "warpterminal"@ || n == "warp"@ {
            spec_push_unique(spec_push_unique(b, "Warp"@), "WarpTerminal"@)
        } else {
            b
        }
    }
}

/// `value.trim().to_ascii_lowercase()`.
pub fn normalize_process_name(value: &str) -> (res: String)
    ensures
        res@ == normalized(value@),
{
    let n = normalized_chars(value);
    string_from_chars(&n, 0, n.len())
}

/// Adds a name unless it is blank or already present (ignoring case).
pub fn push_unique_name(values: &mut Vec<String>, candidate: &str)
    ensures
        name_views(final(values)@) == spec_push_unique(name_views(old(values)@), candidate@),
{
    let ghost before = name_views(values@);
    if str_is_blank(candidate) {
        return;
    }
    let c = trim_str(candidate);
    let target = normalized_chars(c.as_str());
    let mut i: usize = 0;
    while i < values.len()
        invariant
            i <= values@.len(),
            before == name_views(values@),
            c@ == trim(candidate@),
            target@ == normalized(c@),
            forall|j: int| 0 <= j < i ==> #[trigger] normalized(before[j]) != normalized(c@),
        decreases values.len() - i,
    {
        let existing = normalized_chars(values[i].as_str());
        if chars_eq(&existing, &target) {
            proof {
                assert(normalized(before[i as int]) == normalized(c@));
                assert(has_name(before, trim(candidate@)));
            }
            return;
        }
        i = i + 1;
    }
    values.push(c);
    proof {
        assert(!has_name(before, trim(candidate@)));
        assert(name_views(values@) =~= before.push(trim(candidate@)));
    }
}

fn ends_with_app_chars(c: &Vec<char>) -> (r: bool)
    ensures
        r == ends_with_app(c@),
{
    if c.len() < 4 {
        return false;
    }
    let n = c.len();
    let r = c[n - 4] == '.' && c[n - 3] == 'a' && c[n - 2] == 'p' && c[n - 1] == 'p';
    proof {
        reveal_strlit(".app");
        let tail = c@.subrange(n - 4, n as int);
        if r {
            assert(tail =~= ".app"@);
        } else {
            if tail == ".app"@ {
                assert(tail[0] == '.' && tail[1] == 'a' && tail[2] == 'p' && tail[3] == 'p');
            }
        }
    }
    r
}

/// Adds a host application name and its known aliases.
pub fn push_host_aliases(values: &mut Vec<String>, candidate: &str)
    ensures
        name_views(final(values)@) == spec_push_host_aliases(name_views(old(values)@), candidate@),
{
    let c = trim_str(candidate);
    if c.as_str().is_empty() {
        return;
    }
    proof {
        crate::text::lemma_trim_idempotent(candidate@);
    }
    push_unique_name(values, c.as_str());
    let chars = chars_of(c.as_str());
    if ends_with_app_chars(&chars) {
        let stem = string_from_chars(&chars, 0, chars.len() - 4);
        push_unique_name(values, stem.as_str());
    }
    let n = normalized_chars(c.as_str());
    if chars_eq_str(&n, "apple_terminal") {
        push_unique_name(values, "Terminal");
    } else if chars_eq_str(&n, "iterm.app") || chars_eq_str(&n, "iterm") || chars_eq_str(&n, "iterm2") {
        push_unique_name(values, "iTerm");
        push_unique_name(values, "iTerm2");
    } else if chars_eq_str(&n, "warpterminal") || chars_eq_str(&n, "warp") {
        push_unique_name(values, "Warp");
        push_unique_name(values, "WarpTerminal");
    }
}

/// The host names gathered at start-up: the executable's name, the first
/// enclosing `.app` bundle's name, and the aliases of the terminal named by
/// the terminal environment variables.
pub open spec fn spec_host_names(exe_stem: Option<Seq<char>>, bundle: Option<Seq<char>>, terminal_values: Seq<Seq<char>>) -> Seq<Seq<char>> {
    let a = match exe_stem {
        Some(s) => spec_push_unique(Seq::empty(), s),
        None => Seq::empty(),
    };
    let b = match bundle {
        Some(s) => spec_push_unique(a, s),
        None => a,
    };
    push_all_aliases(b, terminal_values)
}

/// Host aliases for each terminal value, in order.
pub open spec fn push_all_aliases(names: Seq<Seq<char>>, values: Seq<Seq<char>>) -> Seq<Seq<char>>
    decreases values.len(),
{
    if values.len() == 0 {
        names
    } else {
        spec_push_host_aliases(push_all_aliases(names, values.drop_last()), values.last())
    }
}

/// The name of the first `.app` bundle among the enclosing directory names,
/// without `.app`.
pub open spec fn first_bundle(ancestors: Seq<Seq<char>>) -> Option<Seq<char>>
    decreases ancestors.len(),
{
    if ancestors.len() == 0 {
        None
    } else if ends_with_app(ancestors[0]) {
        Some(strip_app(ancestors[0]))
    } else {
        first_bundle(ancestors.drop_first())
    }
}

impl MacosHostContext {
    pub closed spec fn names(&self) -> Seq<Seq<char>> {
        name_views(self.host_process_names@)
    }

    /// The host context from the executable's file stem, the names of its
    /// enclosing directories (innermost first) and the values of the
    /// terminal environment variables that are set.
    pub fn from_sources(exe_stem: Option<&str>, ancestor_names: &Vec<String>, terminal_values: &Vec<String>) -> (res: Self)
        ensures
            res.names() == spec_host_names(
                match exe_stem {
                    Some(s) => Some(s@),
                    None => None,
                },
                first_bundle(name_views(ancestor_names@)),
                name_views(terminal_values@),
            ),
    {
        let mut names: Vec<String> = Vec::new();
        proof {
            assert(name_views(names@) =~= Seq::<Seq<char>>::empty());
        }
        match exe_stem {
            Some(s) => push_unique_name(&mut names, s),
            None => {},
        }
        let ghost after_stem = name_views(names@);
        let mut i: usize = 0;
        let mut found = false;
        let ghost anc = name_views(ancestor_names@);
        proof {
            assert(anc.subrange(0, anc.len() as int) =~= anc);
        }
        while i < ancestor_names.len() && !found
            invariant
                i <= ancestor_names@.len(),
                anc == name_views(ancestor_names@),
                !found ==> first_bundle(anc) == first_bundle(anc.subrange(i as int, anc.len() as int)),
                !found ==> name_views(names@) == after_stem,
                found ==> name_views(names@) == spec_push_unique(after_stem, first_bundle(anc).unwrap())
                    && first_bundle(anc) is Some,
            decreases ancestor_names.len() - i + (if found { 0int } else { 1int }),
        {
            let chars = chars_of(ancestor_names[i].as_str());
            let ghost rest = anc.subrange(i as int, anc.len() as int);
            proof {
                assert(rest[0] == anc[i as int]);
                assert(rest.drop_first() =~= anc.subrange(i + 1, anc.len() as int));
            }
            if ends_with_app_chars(&chars) {
                let bundle = string_from_chars(&chars, 0, chars.len() - 4);
                push_unique_name(&mut names, bundle.as_str());
                found = true;
            } else {
                i = i + 1;
            }
        }
        proof {
            if !found {
                assert(anc.subrange(i as int, anc.len() as int).len() == 0);
            }
        }
        let ghost after_bundle = name_views(names@);
        let mut k: usize = 0;
        while k < terminal_values.len()
            invariant
                k <= terminal_values@.len(),
                name_views(names@) == push_all_aliases(after_bundle, name_views(terminal_values@).take(k as int)),
            decreases terminal_values.len() - k,
        {
            proof {
                assert(name_views(terminal_values@).take(k + 1).drop_last() =~= name_views(terminal_values@).take(k as int));
            }
            push_host_aliases(&mut names, terminal_values[k].as_str());
            k = k + 1;
        }
        proof {
            assert(name_views(terminal_values@).take(k as int) =~= name_views(terminal_values@));
        }
        MacosHostContext { host_process_names: names }
    }

    /// The recorded host names.
    pub fn host_process_names(&self) -> (res: &Vec<String>)
        ensures
            name_views(res@) == self.names(),
    {
        &self.host_process_names
    }
}

/// The frontmost window from what the system reported for the frontmost
/// process (its name, focused window title and process id), `None` when
/// nothing could be read; the process id stands in for the window handle.
pub fn get_frontmost_window_info(front: Option<(String, String, i32)>) -> (res: Option<WindowInfo>)
    ensures
        match front {
            Some((process_name, title, pid)) => res == Some(
                WindowInfo { hwnd: pid as isize, title, process_name },
            ),
            None => res is None,
        },
{
    match front {
        Some((process_name, title, pid)) => Some(WindowInfo { hwnd: pid as isize, title, process_name }),
        None => None,
    }
}

/// A usable macOS target: a window with a process name, not one of the host
/// applications when those are refused, whose title passes the filter.
pub open spec fn spec_usable_target(
    window: Option<WindowInfo>,
    require_title: Seq<char>,
    forbid_host_window_target: bool,
    host: Option<Seq<Seq<char>>>,
) -> bool {
    match window {
        None => false,
        Some(w) => {
            &&& !is_blank(w.process_name@)
            &&& (forbid_host_window_target && host is Some) ==> !has_name(host.unwrap(), w.process_name@)
            &&& title_matches(w.title@, require_title)
        },
    }
}

/// Whether text may be pasted into `window`.
pub fn is_usable_target_window(
    window: Option<&WindowInfo>,
    require_title: &str,
    forbid_host_window_target: bool,
    host_context: Option<&MacosHostContext>,
) -> (r: bool)
    ensures
        r == spec_usable_target(
            match window {
                Some(w) => Some(*w),
                None => None,
            },
            require_title@,
            forbid_host_window_target,
            match host_context {
                Some(h) => Some(h.names()),
                None => None,
            },
        ),
{
    let w = match window {
        Some(w) => w,
        None => {
            return false;
        },
    };
    if str_is_blank(w.process_name.as_str()) {
        return false;
    }
    if forbid_host_window_target {
        if let Some(host) = host_context {
            let process = normalized_chars(w.process_name.as_str());
            let names = &host.host_process_names;
            let ghost nv = name_views(names@);
            let mut i: usize = 0;
            while i < names.len()
                invariant
                    i <= names@.len(),
                    nv == name_views(names@),
                    nv == host.names(),
                    forbid_host_window_target,
                    host_context == Some(host),
                    window == Some(w),
                    process@ == normalized(w.process_name@),
                    forall|j: int| 0 <= j < i ==> #[trigger] normalized(nv[j]) != normalized(w.process_name@),
                decreases names.len() - i,
            {
                let name = normalized_chars(names[i].as_str());
                if chars_eq(&name, &process) {
                    proof {
                        assert(normalized(nv[i as int]) == normalized(w.process_name@));
                    }
                    return false;
                }
                i = i + 1;
            }
        }
    }
    title_passes(w.title.as_str(), require_title)
}

} // verus!
