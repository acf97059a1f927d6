//! The session buffer: key presses append separator-prefixed tokens, and a
//! periodic writer drains the accumulated text and routes it to a location
//! derived from the focused window's title.
//!
//! The buffer owns no clock and touches no file: the caller hands in the
//! current time in milliseconds and carries out the returned flush plan.

use vstd::prelude::*;

use crate::label::{sanitize_title, window_label};
use crate::text::push_char;
use crate::token::{derive_token, token_text, KeyEvent, KeyEventView};
use vstd::string::StringExecFns;

verus! {

/// Default gap, in milliseconds, at which two presses count as separate
/// typing bursts.
pub const THRESHOLD_MILLI_SECS: u64 = 500;

/// Default period, in seconds, of the flush timer the caller runs.
pub const WRITE_INTERVAL_SECS: u64 = 1;

/// Milliseconds elapsed between two instants, zero when time stood still or
/// ran backwards.
pub open spec fn elapsed_ms(prev: u64, now: u64) -> int {
    if now >= prev {
        now - prev
    } else {
        0
    }
}

/// The separator put before a token: nothing before the first press ever, a
/// newline when the gap reaches the threshold, else a single space.
pub open spec fn separator(last: Option<u64>, now: u64, threshold: u64) -> Seq<char> {
    match last {
        None => Seq::empty(),
        Some(prev) => if elapsed_ms(prev, now) >= threshold {
            seq!['\n']
        } else {
            seq![' ']
        },
    }
}

/// Everything one key press appends: its separator, then its token.
pub open spec fn entry_text(last: Option<u64>, ev: KeyEventView, now: u64, threshold: u64) -> Seq<
    char,
> {
    separator(last, now, threshold) + token_text(ev.name, ev.key)
}

/// The title a flush falls back to when no window title could be resolved.
pub open spec fn unknown_title() -> Seq<char> {
    seq!['u', 'n', 'k', 'n', 'o', 'w', 'n']
}

pub open spec fn opt_title_view(title: Option<&str>) -> Option<Seq<char>> {
    match title {
        Some(t) => Some(t@),
        None => None,
    }
}

pub open spec fn resolved_title(title: Option<Seq<char>>) -> Seq<char> {
    match title {
        Some(t) => t,
        None => unknown_title(),
    }
}

/// The directory a flush writes into: the root, then the short window label.
pub open spec fn flush_dir(root: Seq<char>, title: Option<Seq<char>>) -> Seq<char> {
    root + seq!['/'] + window_label(sanitize_title(resolved_title(title)))
}

/// The file a flush appends to: one text file per full sanitized title,
/// inside the label's directory.
pub open spec fn flush_file(root: Seq<char>, title: Option<Seq<char>>) -> Seq<char> {
    flush_dir(root, title) + seq!['/'] + sanitize_title(resolved_title(title)) + seq![
        '.',
        't',
        'x',
        't',
    ]
}

/// One pending write: where to put it and what to append.  The caller
/// creates `dir`, then appends `content` to `file`, exactly as given.
pub struct FlushPlan {
    pub dir: String,
    pub file: String,
    pub content: String,
}

/// The in-memory session: the text accumulated since the last flush, the
/// instant of the previous key press, and the burst threshold.
pub struct SessionState {
    pub buffer: String,
    pub last_ms: Option<u64>,
    pub threshold_ms: u64,
}

/// Ghost state of a session together with everything already flushed.
#[verifier::ext_equal]
pub struct SessionModel {
    pub buf: Seq<char>,
    pub last: Option<u64>,
    pub out: Seq<char>,
}

/// One step of the session: a key press at some instant, or a flush tick.
pub enum SessionOp {
    Key(KeyEventView, u64),
    Flush,
}

/// The transition a single operation makes: a key press appends its entry to
/// the buffer; a flush moves the whole buffer to the output.
pub open spec fn model_step(m: SessionModel, op: SessionOp, threshold: u64) -> SessionModel {
    match op {
        SessionOp::Key(ev, now) => SessionModel {
            buf: m.buf + entry_text(m.last, ev, now, threshold),
            last: Some(now),
            out: m.out,
        },
        SessionOp::Flush => SessionModel { buf: Seq::empty(), last: m.last, out: m.out + m.buf },
    }
}

pub open spec fn model_run(m: SessionModel, ops: Seq<SessionOp>, threshold: u64) -> SessionModel
    decreases ops.len(),
{
    if ops.len() == 0 {
        m
    } else {
        model_run(model_step(m, ops[0], threshold), ops.drop_first(), threshold)
    }
}

/// The concatenation of the entries of the key presses in `ops`, in order,
/// ignoring flushes entirely.
pub open spec fn keys_text(last: Option<u64>, ops: Seq<SessionOp>, threshold: u64) -> Seq<char>
    decreases ops.len(),
{
    if ops.len() == 0 {
        Seq::empty()
    } else {
        match ops[0] {
            SessionOp::Key(ev, now) => entry_text(last, ev, now, threshold) + keys_text(
                Some(now),
                ops.drop_first(),
                threshold,
            ),
            SessionOp::Flush => keys_text(last, ops.drop_first(), threshold),
        }
    }
}

/// Law: however flush ticks interleave with key presses, the flushed output
/// followed by what still sits in the buffer is exactly the concatenation of
/// every key press's entry, each once and in its original order.
pub proof fn lemma_no_token_lost_or_duplicated(m: SessionModel, ops: Seq<SessionOp>, threshold: u64)
    ensures
        model_run(m, ops, threshold).out + model_run(m, ops, threshold).buf == m.out + m.buf
            + keys_text(m.last, ops, threshold),
    decreases ops.len(),
{
    if ops.len() == 0 {
        assert(m.out + m.buf + Seq::<char>::empty() =~= m.out + m.buf);
    } else {
        let m1 = model_step(m, ops[0], threshold);
        lemma_no_token_lost_or_duplicated(m1, ops.drop_first(), threshold);
        match ops[0] {
            SessionOp::Key(ev, now) => {
                assert(m.out + (m.buf + entry_text(m.last, ev, now, threshold)) + keys_text(
                    Some(now),
                    ops.drop_first(),
                    threshold,
                ) =~= m.out + m.buf + (entry_text(m.last, ev, now, threshold) + keys_text(
                    Some(now),
                    ops.drop_first(),
                    threshold,
                )));
            },
            SessionOp::Flush => {
                assert((m.out + m.buf) + Seq::<char>::empty() + keys_text(
                    m.last,
                    ops.drop_first(),
                    threshold,
                ) =~= m.out + m.buf + keys_text(m.last, ops.drop_first(), threshold));
            },
        }
    }
}

/// Law: a gap at or above the threshold separates with a newline, a shorter
/// gap with a space, and the first press ever has no separator at all.
pub proof fn lemma_separator_rule(last: Option<u64>, now: u64, threshold: u64)
    ensures
        last is None ==> separator(last, now, threshold) == Seq::<char>::empty(),
        last matches Some(prev) && elapsed_ms(prev, now) >= threshold ==> separator(
            last,
            now,
            threshold,
        ) == seq!['\n'],
        last matches Some(prev) && elapsed_ms(prev, now) < threshold ==> separator(
            last,
            now,
            threshold,
        ) == seq![' '],
{
}

impl SessionState {
    /// The model state this session stands in, next to the text already
    /// flushed.
    pub open spec fn abs(self, out: Seq<char>) -> SessionModel {
        SessionModel { buf: self.buffer@, last: self.last_ms, out }
    }

    /// A fresh session: empty buffer, no previous press.
    pub fn new(threshold_ms: u64) -> (r: SessionState)
        ensures
            r.buffer@ == Seq::<char>::empty(),
            r.last_ms is None,
            r.threshold_ms == threshold_ms,
    {
        SessionState { buffer: String::new(), last_ms: None, threshold_ms }
    }

    pub fn is_empty(&self) -> (r: bool)
        ensures
            r == (self.buffer@.len() == 0),
    {
        self.buffer.as_str().is_empty()
    }

    /// Appends one key press: the separator the timing rule chooses, then the
    /// press's token; remembers the press's instant.  Performs exactly a
    /// `Key` step of the session model.
    pub fn record_key(&mut self, ev: &KeyEvent, now_ms: u64)
        ensures
            final(self).buffer@ == old(self).buffer@ + entry_text(
                old(self).last_ms,
                ev@,
                now_ms,
                old(self).threshold_ms,
            ),
            final(self).last_ms == Some(now_ms),
            final(self).threshold_ms == old(self).threshold_ms,
            forall|out: Seq<char>|
                final(self).abs(out) == model_step(
                    old(self).abs(out),
                    SessionOp::Key(ev@, now_ms),
                    old(self).threshold_ms,
                ),
    {
        match self.last_ms {
            Some(prev) => {
                let gap: u64 = if now_ms >= prev {
                    now_ms - prev
                } else {
                    0
                };
                if gap >= self.threshold_ms {
                    push_char(&mut self.buffer, '\n');
                } else {
                    push_char(&mut self.buffer, ' ');
                }
            },
            None => {},
        }
        let tok = derive_token(ev);
        self.buffer.append(tok.as_str());
        self.last_ms = Some(now_ms);
        proof {
            assert(self.buffer@ =~= old(self).buffer@ + entry_text(
                old(self).last_ms,
                ev@,
                now_ms,
                old(self).threshold_ms,
            ));
            assert forall|out: Seq<char>|
                self.abs(out) == model_step(
                    old(self).abs(out),
                    SessionOp::Key(ev@, now_ms),
                    old(self).threshold_ms,
                ) by {
                assert(self.abs(out) =~= model_step(
                    old(self).abs(out),
                    SessionOp::Key(ev@, now_ms),
                    old(self).threshold_ms,
                ));
            }
        }
    }

    /// Takes the whole accumulated text out, leaving the buffer empty and the
    /// timing state untouched.  Performs exactly a `Flush` step of the
    /// session model.
    pub fn take_text(&mut self) -> (r: String)
        ensures
            r@ == old(self).buffer@,
            final(self).buffer@ == Seq::<char>::empty(),
            final(self).last_ms == old(self).last_ms,
            final(self).threshold_ms == old(self).threshold_ms,
            forall|out: Seq<char>|
                final(self).abs(out + r@) == model_step(
                    old(self).abs(out),
                    SessionOp::Flush,
                    old(self).threshold_ms,
                ),
    {
        let r = self.buffer.clone();
        self.buffer = String::new();
        proof {
            assert forall|out: Seq<char>|
                self.abs(out + r@) == model_step(
                    old(self).abs(out),
                    SessionOp::Flush,
                    old(self).threshold_ms,
                ) by {
                assert(self.abs(out + r@) =~= model_step(
                    old(self).abs(out),
                    SessionOp::Flush,
                    old(self).threshold_ms,
                ));
            }
        }
        r
    }

    /// One flush tick.  An empty buffer flushes to nothing: no plan, no
    /// state change.  Otherwise the whole text comes out as a plan naming
    /// the label directory and the per-title file, and the buffer is left
    /// empty.
    pub fn plan_flush(&mut self, title: Option<&str>, root: &str) -> (r: Option<FlushPlan>)
        ensures
            old(self).buffer@.len() == 0 ==> r is None && *final(self) == *old(self),
            old(self).buffer@.len() > 0 ==> {
                &&& r matches Some(plan)
                &&& plan.content@ == old(self).buffer@
                &&& plan.dir@ == flush_dir(root@, opt_title_view(title))
                &&& plan.file@ == flush_file(root@, opt_title_view(title))
                &&& final(self).buffer@ == Seq::<char>::empty()
                &&& final(self).last_ms == old(self).last_ms
                &&& final(self).threshold_ms == old(self).threshold_ms
            },
    {
        if self.is_empty() {
            return None;
        }
        let resolved: String = match title {
            Some(t) => t.to_owned(),
            None => {
                let u = String::from_str("unknown");
                proof {
                    reveal_strlit("unknown");
                    assert(u@ =~= unknown_title());
                }
                u
            },
        };
        let sanitized = crate::label::filter_windows_filename(resolved.as_str());
        let short = crate::label::extract_after_last_hyphen(sanitized.as_str());

        let mut dir = String::from_str(root);
        push_char(&mut dir, '/');
        dir.append(short.as_str());
        proof {
            assert(dir@ =~= flush_dir(root@, opt_title_view(title)));
        }

        let mut file = dir.clone();
        push_char(&mut file, '/');
        file.append(sanitized.as_str());
        let ext = String::from_str(".txt");
        proof {
            reveal_strlit(".txt");
            assert(ext@ =~= seq!['.', 't', 'x', 't']);
        }
        file.append(ext.as_str());
        proof {
            assert(file@ =~= flush_file(root@, opt_title_view(title)));
        }

        let content = self.take_text();
        Some(FlushPlan { dir, file, content })
    }
}

} // verus!
