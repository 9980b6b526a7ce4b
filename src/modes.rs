//! The resolutions a monitor supports, read from the compositor's capability text.
use crate::text::{
    all_digits, blank_from, chars_of, contains_string, find_blank, find_char, find_from, is_digit,
    is_digit_char, lemma_blank_from_bounds, lemma_find_from_bounds, starts_with, starts_with_at,
    string_views, substring, trim, trim_bounds,
};
use vstd::prelude::*;

verus! {

broadcast use vstd::string::group_string_axioms;

/// `digits 'x' digits`, with digits on both sides.
pub open spec fn is_resolution(r: Seq<char>) -> bool {
    exists|k: int|
        0 < k < r.len() - 1 && #[trigger] r[k] == 'x' && all_digits(r.take(k)) && all_digits(
            r.skip(k + 1),
        )
}

/// `s` without its leading non-digit characters.
pub open spec fn strip_non_digits(s: Seq<char>) -> Seq<char>
    decreases s.len(),
{
    if s.len() > 0 && !is_digit(s[0]) {
        strip_non_digits(s.drop_first())
    } else {
        s
    }
}

/// The resolution named by a mode token such as `1920x1080@60.00Hz`: the text
/// before the first `@`, trimmed and stripped of leading non-digits, when it
/// has the shape `digits 'x' digits`.
pub open spec fn extract_resolution(token: Seq<char>) -> Option<Seq<char>> {
    let at = find_from(token, '@', 0);
    if at >= token.len() {
        None
    } else {
        let r = strip_non_digits(trim(token.take(at)));
        if is_resolution(r) {
            Some(r)
        } else {
            None
        }
    }
}

pub open spec fn monitor_header(name: Seq<char>) -> Seq<char> {
    "Monitor "@ + name
}

/// Scans the lines of `t` from index `i` for the `availableModes:` line of the
/// section of monitor `name`, and gives what follows the key on it, trimmed.
///
/// A line that begins with `Monitor <name>` opens the section; inside it, a
/// line that begins with `Monitor ` for another monitor closes it.
pub open spec fn modes_line(t: Seq<char>, name: Seq<char>, i: int, inside: bool) -> Option<
    Seq<char>,
>
    decreases t.len() + 1 - i,
    via modes_line_decreases
{
    if i < 0 || i >= t.len() {
        None
    } else {
        let e = find_from(t, '\n', i);
        let line = trim(t.subrange(i, e));
        if starts_with(line, monitor_header(name)) {
            modes_line(t, name, e + 1, true)
        } else if inside && starts_with(line, "Monitor "@) {
            None
        } else if inside && starts_with(line, "availableModes:"@) {
            Some(trim(line.skip("availableModes:"@.len() as int)))
        } else {
            modes_line(t, name, e + 1, inside)
        }
    }
}

/// The distinct resolutions of the blank-separated tokens of `s` from index
/// `i` on, in order of first appearance, after those already in `acc`.
pub open spec fn collect_modes(s: Seq<char>, i: int, acc: Seq<Seq<char>>) -> Seq<Seq<char>>
    decreases s.len() + 1 - i,
    via collect_modes_decreases
{
    if i < 0 || i >= s.len() {
        acc
    } else {
        let e = blank_from(s, i);
        let next = match extract_resolution(s.subrange(i, e)) {
            Some(r) => if acc.contains(r) {
                acc
            } else {
                acc.push(r)
            },
            None => acc,
        };
        collect_modes(s, e + 1, next)
    }
}

#[via_fn]
proof fn modes_line_decreases(t: Seq<char>, name: Seq<char>, i: int, inside: bool) {
    if 0 <= i < t.len() {
        lemma_find_from_bounds(t, '\n', i);
    }
}

#[via_fn]
proof fn collect_modes_decreases(s: Seq<char>, i: int, acc: Seq<Seq<char>>) {
    if 0 <= i < s.len() {
        lemma_blank_from_bounds(s, i);
    }
}

/// The resolutions listed for monitor `name` in capability text `t`, possibly none.
pub open spec fn listed_modes(t: Seq<char>, name: Seq<char>) -> Seq<Seq<char>> {
    match modes_line(t, name, 0, false) {
        Some(rest) => collect_modes(rest, 0, seq![]),
        None => seq![],
    }
}

/// Common resolutions offered when the capability text names none.
pub open spec fn fallback_modes() -> Seq<Seq<char>> {
    seq![
        "1920x1080"@,
        "2560x1440"@,
        "3840x2160"@,
        "1680x1050"@,
        "1366x768"@,
        "1440x900"@,
    ]
}

/// The resolution list for monitor `name`: the listed ones, or the fallback list.
pub open spec fn monitor_modes(t: Seq<char>, name: Seq<char>) -> Seq<Seq<char>> {
    if listed_modes(t, name).len() == 0 {
        fallback_modes()
    } else {
        listed_modes(t, name)
    }
}

/// The resolution list for a capability query's outcome; `None` stands for a failed query.
pub open spec fn available_modes(query: Option<Seq<char>>, name: Seq<char>) -> Seq<Seq<char>> {
    match query {
        Some(t) => monitor_modes(t, name),
        None => fallback_modes(),
    }
}

/// With `r[k]` the first `x` of `r`, `r` is a resolution exactly when digits
/// stand on both sides of it.
proof fn lemma_resolution_at(r: Seq<char>, k: int)
    requires
        0 <= k <= r.len(),
        k < r.len() ==> r[k] == 'x',
        forall|j: int| 0 <= j < k ==> r[j] != 'x',
    ensures
        is_resolution(r) <==> (k < r.len() && 0 < k < r.len() - 1 && all_digits(r.take(k))
            && all_digits(r.skip(k + 1))),
{
    if is_resolution(r) {
        let w = choose|w: int|
            0 < w < r.len() - 1 && #[trigger] r[w] == 'x' && all_digits(r.take(w)) && all_digits(
                r.skip(w + 1),
            );
        if w > k {
            assert(r.take(w)[k] == 'x');
        }
        assert(w == k);
    }
}

fn all_digits_at(s: &Vec<char>, lo: usize, hi: usize) -> (r: bool)
    requires
        lo <= hi <= s@.len(),
    ensures
        r == all_digits(s@.subrange(lo as int, hi as int)),
{
    let mut i = lo;
    while i < hi
        invariant
            lo <= i <= hi <= s@.len(),
            forall|j: int| lo <= j < i ==> is_digit(s@[j]),
        decreases hi - i,
    {
        if !is_digit_char(s[i]) {
            assert(s@.subrange(lo as int, hi as int)[i - lo] == s@[i as int]);
            return false;
        }
        i = i + 1;
    }
    assert forall|j: int| 0 <= j < hi - lo implies is_digit(
        #[trigger] s@.subrange(lo as int, hi as int)[j],
    ) by {
        assert(s@.subrange(lo as int, hi as int)[j] == s@[lo + j]);
    }
    true
}

/// Reads the resolution out of a mode token such as `1920x1080@60.00Hz`.
pub fn extract_resolution_from_line(line: &str) -> (r: Option<String>)
    ensures
        match r {
            Some(m) => extract_resolution(line@) == Some(m@),
            None => extract_resolution(line@) is None,
        },
{
    let cs = chars_of(line);
    let at = find_char(&cs, '@', 0);
    if at >= cs.len() {
        return None;
    }
    assert(cs@.subrange(0, at as int) =~= line@.take(at as int));
    let (a, b) = trim_bounds(&cs, 0, at);
    let mut s = a;
    while s < b && !is_digit_char(cs[s])
        invariant
            a <= s <= b <= cs@.len(),
            strip_non_digits(cs@.subrange(a as int, b as int)) == strip_non_digits(
                cs@.subrange(s as int, b as int),
            ),
        decreases b - s,
    {
        assert(cs@.subrange(s as int, b as int).drop_first() =~= cs@.subrange(s + 1, b as int));
        s = s + 1;
    }
    let ghost res = cs@.subrange(s as int, b as int);
    assert(strip_non_digits(res) == res);
    let mut k = s;
    while k < b && cs[k] != 'x'
        invariant
            s <= k <= b <= cs@.len(),
            res == cs@.subrange(s as int, b as int),
            forall|j: int| s <= j < k ==> cs@[j] != 'x',
        decreases b - k,
    {
        k = k + 1;
    }
    proof {
        assert forall|j: int| 0 <= j < k - s implies res[j] != 'x' by {
            assert(res[j] == cs@[s + j]);
        }
        lemma_resolution_at(res, k - s);
    }
    if k == b || k == s || k + 1 == b {
        return None;
    }
    let left = all_digits_at(&cs, s, k);
    let right = all_digits_at(&cs, k + 1, b);
    assert(res.take(k - s) =~= cs@.subrange(s as int, k as int));
    assert(res.skip(k - s + 1) =~= cs@.subrange(k + 1, b as int));
    if left && right {
        Some(substring(line, s, b))
    } else {
        None
    }
}

/// Finds the `availableModes:` line of monitor `name`'s section and gives the
/// bounds of what follows the key on it, trimmed.
fn find_modes_line(cs: &Vec<char>, header: &Vec<char>, name: Ghost<Seq<char>>) -> (r: Option<
    (usize, usize),
>)
    requires
        header@ == monitor_header(name@),
    ensures
        match r {
            Some((a, b)) => a <= b <= cs@.len() && modes_line(cs@, name@, 0, false) == Some(
                cs@.subrange(a as int, b as int),
            ),
            None => modes_line(cs@, name@, 0, false) is None,
        },
{
    let monitor_word = chars_of("Monitor ");
    let modes_key = chars_of("availableModes:");
    let mut i: usize = 0;
    let mut inside = false;
    while i < cs.len()
        invariant
            i <= cs@.len(),
            header@ == monitor_header(name@),
            monitor_word@ == "Monitor "@,
            modes_key@ == "availableModes:"@,
            modes_line(cs@, name@, 0, false) == modes_line(cs@, name@, i as int, inside),
        decreases cs@.len() - i,
    {
        let e = find_char(cs, '\n', i);
        let (a, b) = trim_bounds(cs, i, e);
        if starts_with_at(cs, a, b, header) {
            inside = true;
        } else if inside && starts_with_at(cs, a, b, &monitor_word) {
            return None;
        } else if inside && starts_with_at(cs, a, b, &modes_key) {
            let (c, d) = trim_bounds(cs, a + modes_key.len(), b);
            assert(cs@.subrange(a as int, b as int).skip(modes_key@.len() as int) =~= cs@.subrange(
                a + modes_key@.len(),
                b as int,
            ));
            return Some((c, d));
        }
        if e >= cs.len() {
            assert(modes_line(cs@, name@, e + 1, inside) is None);
            return None;
        }
        i = e + 1;
    }
    None
}

/// The distinct resolutions of the blank-separated tokens of `rest`, in order.
fn collect_resolutions(rest: &str) -> (r: Vec<String>)
    ensures
        string_views(r@) == collect_modes(rest@, 0, seq![]),
{
    let cs = chars_of(rest);
    let mut acc: Vec<String> = Vec::new();
    let mut i: usize = 0;
    assert(string_views(acc@) =~= seq![]);
    while i < cs.len()
        invariant
            i <= cs@.len(),
            cs@ == rest@,
            collect_modes(rest@, 0, seq![]) == collect_modes(rest@, i as int, string_views(acc@)),
        decreases cs@.len() - i,
    {
        let e = find_blank(&cs, i);
        let ghost before = string_views(acc@);
        let token = substring(rest, i, e);
        match extract_resolution_from_line(token.as_str()) {
            Some(m) => {
                if !contains_string(acc.as_slice(), &m) {
                    let ghost prev = acc@;
                    let ghost mv = m@;
                    acc.push(m);
                    assert(string_views(acc@) =~= string_views(prev).push(mv));
                }
            },
            None => {},
        }
        assert(collect_modes(rest@, i as int, before) == collect_modes(
            rest@,
            e + 1,
            string_views(acc@),
        ));
        if e >= cs.len() {
            assert(collect_modes(rest@, e + 1, string_views(acc@)) == string_views(acc@));
            assert(collect_modes(rest@, e as int, string_views(acc@)) == string_views(acc@));
            i = e;
        } else {
            i = e + 1;
        }
    }
    acc
}

/// The list of common resolutions offered when none can be read.
pub fn fallback_resolutions() -> (r: Vec<String>)
    ensures
        string_views(r@) == fallback_modes(),
{
    let r = vec![
        "1920x1080".to_owned(),
        "2560x1440".to_owned(),
        "3840x2160".to_owned(),
        "1680x1050".to_owned(),
        "1366x768".to_owned(),
        "1440x900".to_owned(),
    ];
    assert(string_views(r@) =~= fallback_modes());
    r
}

/// Reads the resolutions of monitor `target_monitor` out of capability text
/// `output`: the distinct resolutions of its `availableModes:` line in order
/// of first appearance, or the fallback list where there are none.
pub fn parse_monitor_modes(output: &str, target_monitor: &str) -> (r: Vec<String>)
    ensures
        string_views(r@) == monitor_modes(output@, target_monitor@),
{
    let cs = chars_of(output);
    let mut header_text = "Monitor ".to_owned();
    header_text.append(target_monitor);
    let header = chars_of(header_text.as_str());
    let modes = match find_modes_line(&cs, &header, Ghost(target_monitor@)) {
        Some((a, b)) => {
            let rest = substring(output, a, b);
            collect_resolutions(rest.as_str())
        },
        None => {
            let v: Vec<String> = Vec::new();
            assert(string_views(v@) =~= seq![]);
            v
        },
    };
    if modes.len() == 0 {
        fallback_resolutions()
    } else {
        modes
    }
}

/// The resolutions of monitor `monitor_name`, given the outcome of a capability
/// query for all monitors: `None` where the query failed, which yields the
/// fallback list.
pub fn get_monitor_available_modes(query: Option<&str>, monitor_name: &str) -> (r: Vec<String>)
    ensures
        string_views(r@) == available_modes(
            match query {
                Some(t) => Some(t@),
                None => None,
            },
            monitor_name@,
        ),
{
    match query {
        Some(output) => parse_monitor_modes(output, monitor_name),
        None => fallback_resolutions(),
    }
}

/// Whether `i` is where a line of `t` begins.
pub open spec fn is_line_start(t: Seq<char>, i: int) -> bool {
    0 <= i < t.len() && (i == 0 || t[i - 1] == '\n')
}

/// Whether some line of `t`, trimmed, begins with `availableModes:`.
pub open spec fn has_modes_key_line(t: Seq<char>) -> bool {
    exists|i: int|
        is_line_start(t, i) && starts_with(
            trim(#[trigger] t.subrange(i, find_from(t, '\n', i))),
            "availableModes:"@,
        )
}

proof fn lemma_collect_distinct(s: Seq<char>, i: int, acc: Seq<Seq<char>>)
    requires
        acc.no_duplicates(),
    ensures
        collect_modes(s, i, acc).no_duplicates(),
    decreases s.len() + 1 - i,
{
    if 0 <= i < s.len() {
        lemma_blank_from_bounds(s, i);
        let e = blank_from(s, i);
        match extract_resolution(s.subrange(i, e)) {
            Some(r) => {
                if !acc.contains(r) {
                    assert(acc.push(r).no_duplicates()) by {
                        assert forall|a: int, b: int|
                            0 <= a < b < acc.push(r).len() implies acc.push(r)[a] != acc.push(
                                r,
                            )[b] by {
                            if b == acc.len() {
                                assert(acc.contains(acc[a]));
                            }
                        }
                    }
                    lemma_collect_distinct(s, e + 1, acc.push(r));
                } else {
                    lemma_collect_distinct(s, e + 1, acc);
                }
            },
            None => {
                lemma_collect_distinct(s, e + 1, acc);
            },
        }
    }
}

proof fn lemma_fallback_distinct()
    ensures
        fallback_modes().no_duplicates(),
        fallback_modes().len() == 6,
{
    reveal_strlit("1920x1080");
    reveal_strlit("2560x1440");
    reveal_strlit("3840x2160");
    reveal_strlit("1680x1050");
    reveal_strlit("1366x768");
    reveal_strlit("1440x900");
    let f = fallback_modes();
    assert(f[0][1] != f[1][1] && f[0][0] != f[2][0] && f[0][1] != f[3][1] && f[0].len() != f[4].len()
        && f[0].len() != f[5].len());
    assert(f[1][0] != f[2][0] && f[1][0] != f[3][0] && f[1].len() != f[4].len() && f[1].len()
        != f[5].len());
    assert(f[2][0] != f[3][0] && f[2].len() != f[4].len() && f[2].len() != f[5].len());
    assert(f[3].len() != f[4].len() && f[3].len() != f[5].len());
    assert(f[4][1] != f[5][1]);
}

/// The resolution list read for a monitor is never empty and names no
/// resolution twice; being a function of the text and the name alone, reading
/// the same text again yields the same list in the same order.
pub proof fn lemma_modes_distinct(t: Seq<char>, name: Seq<char>)
    ensures
        monitor_modes(t, name).len() > 0,
        monitor_modes(t, name).no_duplicates(),
{
    lemma_fallback_distinct();
    if let Some(rest) = modes_line(t, name, 0, false) {
        lemma_collect_distinct(rest, 0, seq![]);
    }
}

proof fn lemma_no_key_line_from(t: Seq<char>, name: Seq<char>, i: int, inside: bool)
    requires
        !has_modes_key_line(t),
        i >= t.len() || is_line_start(t, i),
    ensures
        modes_line(t, name, i, inside) is None,
    decreases t.len() + 1 - i,
{
    if 0 <= i < t.len() {
        lemma_find_from_bounds(t, '\n', i);
        let e = find_from(t, '\n', i);
        assert(!starts_with(trim(t.subrange(i, e)), "availableModes:"@));
        if e + 1 < t.len() {
            assert(is_line_start(t, e + 1));
        }
        lemma_no_key_line_from(t, name, e + 1, true);
        lemma_no_key_line_from(t, name, e + 1, inside);
    }
}

/// Capability text without an `availableModes:` line yields the fallback list.
pub proof fn lemma_fallback_without_modes_line(t: Seq<char>, name: Seq<char>)
    requires
        !has_modes_key_line(t),
    ensures
        monitor_modes(t, name) == fallback_modes(),
{
    lemma_no_key_line_from(t, name, 0, false);
}

/// A failed capability query yields the fallback list.
pub proof fn lemma_fallback_on_failed_query(name: Seq<char>)
    ensures
        available_modes(None, name) == fallback_modes(),
        fallback_modes().len() > 0,
{
    lemma_fallback_distinct();
}

} // verus!
