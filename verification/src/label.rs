//! Derivation of the log location from a window title: first the characters a
//! file name cannot hold are stripped, then a short label is cut out after the
//! last dash — grouping titles such as `Report.docx - Microsoft Word` under
//! the application name they end with.

use vstd::prelude::*;

use crate::text::{
    exec_is_space_char, is_space_char, keep_chars, lemma_trim_end_take, lemma_trim_start_skip,
    push_char, trim_chars,
};
use vstd::string::StrSliceExecFns;

verus! {

/// A character a file name may not hold.
pub open spec fn is_invalid_path_char(c: char) -> bool {
    c == '<' || c == '>' || c == ':' || c == '"' || c == '/' || c == '\\' || c == '|' || c == '?'
        || c == '*'
}

/// A character a window label keeps: an ASCII letter, underscore or space.
pub open spec fn is_label_char(c: char) -> bool {
    let u = c as u32;
    (0x41 <= u && u <= 0x5a) || (0x61 <= u && u <= 0x7a) || c == '_' || c == ' '
}

/// A dash that ends an application-name suffix: the hyphen or the em dash.
pub open spec fn is_dash_char(c: char) -> bool {
    c == '-' || c == '\u{2014}'
}

/// A title with the characters illegal in a file name stripped.
pub open spec fn sanitize_title(s: Seq<char>) -> Seq<char> {
    keep_chars(s, |c: char| !is_invalid_path_char(c))
}

/// The part of `s` after its last dash: `None` when `s` holds no dash.
pub open spec fn after_last_dash(s: Seq<char>) -> Option<Seq<char>>
    decreases s.len(),
{
    if s.len() == 0 {
        None
    } else if is_dash_char(s.last()) {
        Some(Seq::empty())
    } else {
        match after_last_dash(s.drop_last()) {
            Some(t) => Some(t.push(s.last())),
            None => None,
        }
    }
}

/// The short label of a title: the part after the last dash, trimmed, reduced
/// to letters, underscores and spaces; with no dash, the whole title reduced
/// the same way (untrimmed).
pub open spec fn window_label(s: Seq<char>) -> Seq<char> {
    match after_last_dash(s) {
        Some(t) => keep_chars(trim_chars(t), |c: char| is_label_char(c)),
        None => keep_chars(s, |c: char| is_label_char(c)),
    }
}

fn exec_is_invalid_path_char(c: char) -> (r: bool)
    ensures
        r == is_invalid_path_char(c),
{
    c == '<' || c == '>' || c == ':' || c == '"' || c == '/' || c == '\\' || c == '|' || c == '?'
        || c == '*'
}

fn exec_is_label_char(c: char) -> (r: bool)
    ensures
        r == is_label_char(c),
{
    let u: u32 = c as u32;
    (0x41 <= u && u <= 0x5a) || (0x61 <= u && u <= 0x7a) || c == '_' || c == ' '
}

fn exec_is_dash_char(c: char) -> (r: bool)
    ensures
        r == is_dash_char(c),
{
    c == '-' || c == '\u{2014}'
}

/// Removes the characters that are not allowed in a file name.
pub fn filter_windows_filename(input: &str) -> (r: String)
    ensures
        r@ == sanitize_title(input@),
{
    let n: usize = input.unicode_len();
    let mut r = String::new();
    let mut i: usize = 0;
    while i < n
        invariant
            n == input@.len(),
            i <= n,
            r@ == keep_chars(input@.take(i as int), |c: char| !is_invalid_path_char(c)),
        decreases n - i,
    {
        let c = input.get_char(i);
        if !exec_is_invalid_path_char(c) {
            push_char(&mut r, c);
        }
        proof {
            assert(input@.take(i + 1).drop_last() =~= input@.take(i as int));
            assert(input@.take(i + 1).last() == input@[i as int]);
            if !is_invalid_path_char(input@[i as int]) {
                assert(keep_chars(input@.take(i as int), |c: char| !is_invalid_path_char(c)).push(
                    input@[i as int],
                ) =~= keep_chars(input@.take(i as int), |c: char| !is_invalid_path_char(c)) + seq![
                    input@[i as int],
                ]);
            }
        }
        i = i + 1;
    }
    proof {
        assert(input@.take(n as int) =~= input@);
    }
    r
}

/// Collects the label characters of `s` between `from` and `to`.
fn keep_label_chars(s: &str, from: usize, to: usize) -> (r: String)
    requires
        from <= to <= s@.len(),
    ensures
        r@ == keep_chars(s@.subrange(from as int, to as int), |c: char| is_label_char(c)),
{
    let mut r = String::new();
    let mut i: usize = from;
    while i < to
        invariant
            from <= i <= to <= s@.len(),
            r@ == keep_chars(s@.subrange(from as int, i as int), |c: char| is_label_char(c)),
        decreases to - i,
    {
        let c = s.get_char(i);
        if exec_is_label_char(c) {
            push_char(&mut r, c);
        }
        proof {
            assert(s@.subrange(from as int, i + 1).drop_last() =~= s@.subrange(
                from as int,
                i as int,
            ));
            assert(s@.subrange(from as int, i + 1).last() == s@[i as int]);
            if is_label_char(s@[i as int]) {
                assert(keep_chars(s@.subrange(from as int, i as int), |c: char| is_label_char(c))
                    .push(s@[i as int]) =~= keep_chars(
                    s@.subrange(from as int, i as int),
                    |c: char| is_label_char(c),
                ) + seq![s@[i as int]]);
            }
        }
        i = i + 1;
    }
    r
}

/// When `s[idx]` is the last dash of `s`, the part after the last dash is
/// exactly the suffix behind `idx`.
proof fn lemma_after_last_dash_some(s: Seq<char>, idx: int)
    requires
        0 <= idx < s.len(),
        is_dash_char(s[idx]),
        forall|j: int| idx < j < s.len() ==> !is_dash_char(s[j]),
    ensures
        after_last_dash(s) == Some(s.skip(idx + 1)),
    decreases s.len(),
{
    if idx == s.len() - 1 {
        assert(s.skip(idx + 1) =~= Seq::<char>::empty());
    } else {
        lemma_after_last_dash_some(s.drop_last(), idx);
        assert(s.drop_last().skip(idx + 1).push(s.last()) =~= s.skip(idx + 1));
    }
}

/// A title without a dash has no part after a last dash.
proof fn lemma_after_last_dash_none(s: Seq<char>)
    requires
        forall|j: int| 0 <= j < s.len() ==> !is_dash_char(s[j]),
    ensures
        after_last_dash(s) is None,
    decreases s.len(),
{
    if s.len() > 0 {
        lemma_after_last_dash_none(s.drop_last());
    }
}

/// Cuts the short window label out of a title: the text after the last dash,
/// trimmed and reduced to letters, underscores and spaces.
pub fn extract_after_last_hyphen(s: &str) -> (r: String)
    ensures
        r@ == window_label(s@),
{
    let n: usize = s.unicode_len();

    // Find the last dash, scanning from the end.
    let mut i: usize = n;
    let mut found = false;
    let mut dash_idx: usize = 0;
    while i > 0 && !found
        invariant
            n == s@.len(),
            i <= n,
            !found ==> forall|j: int| i <= j < s@.len() ==> !is_dash_char(s@[j]),
            found ==> dash_idx < s@.len() && is_dash_char(s@[dash_idx as int]) && forall|j: int|
                dash_idx < j < s@.len() ==> !is_dash_char(s@[j]),
        decreases i + (if found { 0int } else { 1int }),
    {
        let c = s.get_char(i - 1);
        if exec_is_dash_char(c) {
            found = true;
            dash_idx = i - 1;
        } else {
            i = i - 1;
        }
    }

    if found {
        proof {
            lemma_after_last_dash_some(s@, dash_idx as int);
        }
        // Trim white space off the suffix, then keep its label characters.
        let mut lo: usize = dash_idx + 1;
        while lo < n && exec_is_space_char(s.get_char(lo))
            invariant
                n == s@.len(),
                dash_idx + 1 <= lo <= n,
                forall|j: int| dash_idx + 1 <= j < lo ==> is_space_char(s@[j]),
            decreases n - lo,
        {
            lo = lo + 1;
        }
        let mut hi: usize = n;
        while hi > lo && exec_is_space_char(s.get_char(hi - 1))
            invariant
                n == s@.len(),
                lo <= hi <= n,
                forall|j: int| hi <= j < s@.len() ==> is_space_char(s@[j]),
            decreases hi,
        {
            hi = hi - 1;
        }
        proof {
            let t = s@.skip(dash_idx + 1);
            lemma_trim_start_skip(t, lo - dash_idx - 1);
            assert(t.skip(lo - dash_idx - 1) =~= s@.skip(lo as int));
            lemma_trim_end_take(s@.skip(lo as int), hi - lo);
            assert(s@.skip(lo as int).take(hi - lo) =~= s@.subrange(lo as int, hi as int));
            assert(trim_chars(t) == s@.subrange(lo as int, hi as int));
        }
        keep_label_chars(s, lo, hi)
    } else {
        proof {
            lemma_after_last_dash_none(s@);
            assert(s@.subrange(0, n as int) =~= s@);
        }
        keep_label_chars(s, 0, n)
    }
}

} // verus!
