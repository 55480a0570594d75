//! Command-line options and the statistics kept while a model streams its
//! answer, together with the rules that decide when streaming stops.
use vstd::prelude::*;

use crate::text::{contains_seq, is_blank, str_contains, str_is_blank};

verus! {

/// The command-line options of the program.
pub struct Args {
    /// Path of the Genie configuration file.
    pub config: String,
    /// The prompt sent to the model.
    pub prompt: String,
    /// Maximum number of tokens to generate.
    pub max_tokens: usize,
    /// Verbose output.
    pub verbose: bool,
    /// Run the ONNX Runtime engine instead of the Genie engine.
    pub ort: bool,
    /// Path of the ONNX model.
    pub model: Option<String>,
    /// Qualcomm SoC model identifier handed to the QNN provider.
    pub soc_model: String,
}

/// What the dialog reported for one fragment of the streamed answer.
pub enum Fragment {
    /// No text came with the callback (a null response).
    Missing,
    /// Text came, but it was not valid UTF-8.
    Undecodable,
    /// A decoded piece of the answer.
    Text(String),
}

/// Where the dialog stands in its sentence when it reports a fragment.
#[derive(Clone, Copy, PartialEq, Eq, Structural)]
pub enum SentenceCode {
    Complete,
    Begin,
    Continue,
    End,
    Abort,
    Rewind,
    /// A code this library does not know.
    Other,
}

/// What the caller of [`Stats::on_fragment`] has to do in the outside world.
#[derive(Clone, Copy, PartialEq, Eq, Structural)]
pub struct CallbackAction {
    /// Note the current time as the arrival of the first token.
    pub record_first_token: bool,
    /// Print the fragment's text (and flush).
    pub print: bool,
}

/// The abstract state of [`Stats`].
pub struct StatsView {
    pub done: bool,
    pub token_count: usize,
    pub whitespace_run: usize,
    pub first_token_seen: bool,
    pub max_tokens: usize,
}

/// Statistics of one streamed answer, and whether streaming is over.
pub struct Stats {
    done: bool,
    token_count: usize,
    consecutive_whitespace: usize,
    first_token_seen: bool,
    max_tokens: usize,
}

impl Stats {
    /// The token count never exceeds the limit.
    #[verifier::type_invariant]
    spec fn count_in_limit(self) -> bool {
        self.token_count <= self.max_tokens
    }
}

impl View for Stats {
    type V = StatsView;

    closed spec fn view(&self) -> StatsView {
        StatsView {
            done: self.done,
            token_count: self.token_count,
            whitespace_run: self.consecutive_whitespace,
            first_token_seen: self.first_token_seen,
            max_tokens: self.max_tokens,
        }
    }
}

/// `n + 1` in the wrapping arithmetic of an atomic counter.
pub open spec fn wrapping_inc(n: usize) -> usize {
    if n == usize::MAX {
        0
    } else {
        (n + 1) as usize
    }
}

/// The text carries one of the markers with which the chat models end a turn.
pub open spec fn is_stop_text(t: Seq<char>) -> bool {
    ||| contains_seq(t, "<|end|>"@)
    ||| contains_seq(t, "<|user|>"@)
    ||| contains_seq(t, "<|endoftext|>"@)
    ||| contains_seq(t, "</s>"@)
}

/// The sentence code closes the dialog's answer.
pub open spec fn ends_answer(code: SentenceCode) -> bool {
    code == SentenceCode::End || code == SentenceCode::Complete || code == SentenceCode::Abort
}

/// Marks the stats as done.
pub open spec fn finished(s: StatsView) -> StatsView {
    StatsView { done: true, ..s }
}

/// Applies the sentence code once a fragment has been dealt with.
pub open spec fn after_code(s: StatsView, code: SentenceCode) -> StatsView {
    if ends_answer(code) {
        finished(s)
    } else {
        s
    }
}

/// A whitespace-only fragment ends streaming once more than five of them
/// have come back to back, provided a token was printed before.
pub open spec fn whitespace_loop(s: StatsView) -> bool {
    s.whitespace_run > 5 && s.token_count > 0
}

/// Printing a fragment under the token limit: the fragment is printed and
/// counted only while the count is below the limit, and streaming is done
/// once the count reaches the limit. The flag tells whether it was printed.
pub open spec fn print_step(s: StatsView) -> (StatsView, bool) {
    if s.token_count >= s.max_tokens {
        (finished(s), false)
    } else {
        let counted = StatsView { token_count: (s.token_count + 1) as usize, ..s };
        if counted.token_count >= s.max_tokens {
            (finished(counted), true)
        } else {
            (counted, true)
        }
    }
}

/// How one callback changes the stats, and what it asks the caller to do.
pub open spec fn callback_step(s: StatsView, fragment: Fragment, code: SentenceCode) -> (
    StatsView,
    CallbackAction,
) {
    if s.done {
        (s, CallbackAction { record_first_token: false, print: false })
    } else {
        let record = !(fragment is Missing) && !s.first_token_seen;
        let seen = if fragment is Missing {
            s
        } else {
            StatsView { first_token_seen: true, ..s }
        };
        match fragment {
            Fragment::Text(t) => {
                if is_stop_text(t@) {
                    (finished(seen), CallbackAction { record_first_token: record, print: false })
                } else if is_blank(t@) {
                    let counted = StatsView {
                        whitespace_run: wrapping_inc(seen.whitespace_run),
                        ..seen
                    };
                    if whitespace_loop(seen) {
                        (
                            finished(counted),
                            CallbackAction { record_first_token: record, print: false },
                        )
                    } else {
                        (
                            after_code(print_step(counted).0, code),
                            CallbackAction {
                                record_first_token: record,
                                print: print_step(counted).1,
                            },
                        )
                    }
                } else {
                    let reset = StatsView { whitespace_run: 0, ..seen };
                    (
                        after_code(print_step(reset).0, code),
                        CallbackAction { record_first_token: record, print: print_step(reset).1 },
                    )
                }
            },
            _ => (after_code(seen, code), CallbackAction { record_first_token: record, print: false }),
        }
    }
}

/// What makes a callback end streaming: a code that closes the answer, or a
/// text fragment that carries a stop marker, that continues a whitespace
/// loop, or that meets the token limit (the limit is already reached, or the
/// fragment is the one that reaches it).
pub open spec fn stop_condition(s: StatsView, fragment: Fragment, code: SentenceCode) -> bool {
    ||| ends_answer(code)
    ||| match fragment {
        Fragment::Text(t) => {
            ||| is_stop_text(t@)
            ||| (is_blank(t@) && whitespace_loop(s))
            ||| s.token_count + 1 >= s.max_tokens
        },
        _ => false,
    }
}

/// The token count never exceeds the limit.
pub open spec fn count_within_limit(s: StatsView) -> bool {
    s.token_count <= s.max_tokens
}

/// The stats before any callback.
pub open spec fn fresh_stats(max_tokens: usize) -> StatsView {
    StatsView {
        done: false,
        token_count: 0,
        whitespace_run: 0,
        first_token_seen: false,
        max_tokens,
    }
}

/// The stats after a sequence of callbacks, each a fragment and its
/// sentence code, handled in order.
pub open spec fn run_callbacks(s: StatsView, events: Seq<(Fragment, SentenceCode)>) -> StatsView
    decreases events.len(),
{
    if events.len() == 0 {
        s
    } else {
        callback_step(run_callbacks(s, events.drop_last()), events.last().0, events.last().1).0
    }
}

/// The number of callbacks of a sequence that printed their fragment.
pub open spec fn printed_calls(s: StatsView, events: Seq<(Fragment, SentenceCode)>) -> nat
    decreases events.len(),
{
    if events.len() == 0 {
        0
    } else {
        let before = run_callbacks(s, events.drop_last());
        printed_calls(s, events.drop_last()) + if callback_step(
            before,
            events.last().0,
            events.last().1,
        ).1.print {
            1nat
        } else {
            0nat
        }
    }
}

impl Stats {
    /// Fresh statistics for an answer of at most `max_tokens` tokens.
    pub fn new(max_tokens: usize) -> (s: Self)
        ensures
            s@ == (StatsView {
                done: false,
                token_count: 0,
                whitespace_run: 0,
                first_token_seen: false,
                max_tokens,
            }),
    {
        Stats {
            done: false,
            token_count: 0,
            consecutive_whitespace: 0,
            first_token_seen: false,
            max_tokens,
        }
    }

    /// Whether streaming is over.
    pub fn is_done(&self) -> (b: bool)
        ensures
            b == self@.done,
    {
        self.done
    }

    /// The number of fragments printed so far; never more than the limit.
    pub fn get_token_count(&self) -> (n: usize)
        ensures
            n == self@.token_count,
            n <= self@.max_tokens,
    {
        proof {
            use_type_invariant(self);
        }
        self.token_count
    }

    /// Whether the first token has already been noted.
    pub fn first_token_seen(&self) -> (b: bool)
        ensures
            b == self@.first_token_seen,
    {
        self.first_token_seen
    }

    /// Handles one callback of the dialog: decides from the fragment and the
    /// sentence code whether streaming stops, updates the counters, and says
    /// whether the fragment is to be printed.
    pub fn on_fragment(&mut self, fragment: &Fragment, code: SentenceCode) -> (action:
        CallbackAction)
        ensures
            (final(self)@, action) == callback_step(old(self)@, *fragment, code),
            count_within_limit(final(self)@),
            // An ordinary fragment under the limit is printed and counted,
            // whatever its sentence code; the code only decides whether
            // streaming is done afterwards.
            ({
                &&& !old(self)@.done
                &&& old(self)@.token_count < old(self)@.max_tokens
                &&& *fragment matches Fragment::Text(t)
                &&& !contains_seq(t@, "<|end|>"@)
                &&& !contains_seq(t@, "<|user|>"@)
                &&& !contains_seq(t@, "<|endoftext|>"@)
                &&& !contains_seq(t@, "</s>"@)
                &&& !is_blank(t@)
            }) ==> {
                &&& action.print
                &&& final(self)@.token_count == old(self)@.token_count + 1
                &&& final(self)@.whitespace_run == 0
                &&& final(self)@.done <==> (code == SentenceCode::End || code
                    == SentenceCode::Complete || code == SentenceCode::Abort
                    || old(self)@.token_count + 1 >= old(self)@.max_tokens)
            },
    {
        proof {
            use_type_invariant(&*self);
        }
        let mut action = CallbackAction { record_first_token: false, print: false };
        if self.done {
            return action;
        }
        match fragment {
            Fragment::Missing => {},
            _ => {
                if !self.first_token_seen {
                    self.first_token_seen = true;
                    action.record_first_token = true;
                }
            },
        }
        if let Fragment::Text(t) = fragment {
            let s = t.as_str();
            let is_stop = str_contains(s, "<|end|>") || str_contains(s, "<|user|>")
                || str_contains(s, "<|endoftext|>") || str_contains(s, "</s>");
            if is_stop {
                self.done = true;
                return action;
            }
            if str_is_blank(s) {
                let count: usize = self.consecutive_whitespace;
                self.consecutive_whitespace = count.wrapping_add(1);
                if count > 5 && self.token_count > 0 {
                    self.done = true;
                    return action;
                }
            } else {
                self.consecutive_whitespace = 0;
            }
            if self.token_count >= self.max_tokens {
                self.done = true;
            } else {
                action.print = true;
                self.token_count = self.token_count + 1;
                if self.token_count >= self.max_tokens {
                    self.done = true;
                }
            }
        }
        if code == SentenceCode::End || code == SentenceCode::Complete || code
            == SentenceCode::Abort {
            self.done = true;
        }
        action
    }
}

/// Once streaming is done, a callback changes nothing and asks for nothing.
pub proof fn lemma_done_is_final(s: StatsView, fragment: Fragment, code: SentenceCode)
    requires
        s.done,
    ensures
        callback_step(s, fragment, code).0 == s,
        !callback_step(s, fragment, code).1.print,
        !callback_step(s, fragment, code).1.record_first_token,
{
}

/// Streaming never resumes: a done state stays done, and the limit a callback
/// works against never changes.
pub proof fn lemma_done_is_monotone(s: StatsView, fragment: Fragment, code: SentenceCode)
    ensures
        s.done ==> callback_step(s, fragment, code).0.done,
        callback_step(s, fragment, code).0.max_tokens == s.max_tokens,
{
}

/// A callback that prints adds exactly one token to the count, and one that
/// does not print leaves the count alone.
pub proof fn lemma_count_tracks_prints(s: StatsView, fragment: Fragment, code: SentenceCode)
    ensures
        callback_step(s, fragment, code).1.print ==> callback_step(s, fragment, code).0.token_count
            == s.token_count + 1,
        !callback_step(s, fragment, code).1.print ==> callback_step(
            s,
            fragment,
            code,
        ).0.token_count == s.token_count,
{
}

/// Every callback keeps the token count within the limit.
pub proof fn lemma_count_within_limit(s: StatsView, fragment: Fragment, code: SentenceCode)
    requires
        count_within_limit(s),
    ensures
        count_within_limit(callback_step(s, fragment, code).0),
{
}

/// While streaming goes on, a callback ends it exactly when it meets a stop
/// condition.
pub proof fn lemma_step_stops_iff(s: StatsView, fragment: Fragment, code: SentenceCode)
    requires
        !s.done,
    ensures
        callback_step(s, fragment, code).0.done <==> stop_condition(s, fragment, code),
{
}

/// After any sequence of callbacks on fresh stats, the token count is the
/// number of callbacks that printed their fragment, and it is within the
/// limit.
pub proof fn lemma_count_is_printed_calls(max_tokens: usize, events: Seq<(Fragment, SentenceCode)>)
    ensures
        run_callbacks(fresh_stats(max_tokens), events).token_count == printed_calls(
            fresh_stats(max_tokens),
            events,
        ),
        run_callbacks(fresh_stats(max_tokens), events).token_count <= max_tokens,
        run_callbacks(fresh_stats(max_tokens), events).max_tokens == max_tokens,
    decreases events.len(),
{
    if events.len() > 0 {
        let p = events.drop_last();
        lemma_count_is_printed_calls(max_tokens, p);
        let before = run_callbacks(fresh_stats(max_tokens), p);
        lemma_done_is_monotone(before, events.last().0, events.last().1);
        lemma_count_tracks_prints(before, events.last().0, events.last().1);
        lemma_count_within_limit(before, events.last().0, events.last().1);
    }
}

/// After any sequence of callbacks on fresh stats, streaming is done exactly
/// when some callback, arriving while streaming went on, met a stop condition.
pub proof fn lemma_done_iff_some_call_stops(
    max_tokens: usize,
    events: Seq<(Fragment, SentenceCode)>,
)
    ensures
        run_callbacks(fresh_stats(max_tokens), events).done <==> exists|i: int|
            0 <= i < events.len() && !run_callbacks(fresh_stats(max_tokens), events.take(i)).done
                && #[trigger] stop_condition(
                run_callbacks(fresh_stats(max_tokens), events.take(i)),
                events[i].0,
                events[i].1,
            ),
    decreases events.len(),
{
    let s = fresh_stats(max_tokens);
    if events.len() == 0 {
        assert forall|i: int| 0 <= i < events.len() implies !stop_condition(
            run_callbacks(s, events.take(i)),
            events[i].0,
            events[i].1,
        ) by {}
    } else {
        let n = events.len() - 1;
        let p = events.drop_last();
        lemma_done_iff_some_call_stops(max_tokens, p);
        assert(events.take(n) =~= p);
        assert forall|i: int| 0 <= i < n implies #[trigger] events.take(i) == p.take(i)
            && events[i] == p[i] by {
            assert(events.take(i) =~= p.take(i));
        }
        let before = run_callbacks(s, p);
        if before.done {
            lemma_done_is_final(before, events.last().0, events.last().1);
            let w = choose|i: int|
                0 <= i < p.len() && !run_callbacks(s, p.take(i)).done && #[trigger] stop_condition(
                    run_callbacks(s, p.take(i)),
                    p[i].0,
                    p[i].1,
                );
            assert(events.take(w) == p.take(w) && events[w] == p[w]);
            assert(stop_condition(run_callbacks(s, events.take(w)), events[w].0, events[w].1));
        } else {
            lemma_step_stops_iff(before, events.last().0, events.last().1);
            if run_callbacks(s, events).done {
                assert(stop_condition(run_callbacks(s, events.take(n)), events[n].0, events[n].1));
            } else {
                assert forall|i: int|
                    0 <= i < events.len() && !run_callbacks(s, events.take(i)).done implies !stop_condition(
                    run_callbacks(s, events.take(i)),
                    events[i].0,
                    events[i].1,
                ) by {
                    if i < n {
                        assert(events.take(i) == p.take(i) && events[i] == p[i]);
                        if stop_condition(run_callbacks(s, p.take(i)), p[i].0, p[i].1) {
                            assert(before.done);
                        }
                    }
                }
            }
        }
    }
}

/// The first token is noted at most once per answer: only a callback that
/// carries a response, before any other did, asks for it.
pub proof fn lemma_first_token_once(s: StatsView, fragment: Fragment, code: SentenceCode)
    ensures
        callback_step(s, fragment, code).1.record_first_token <==> (!s.done && !s.first_token_seen
            && !(fragment is Missing)),
        callback_step(s, fragment, code).1.record_first_token ==> callback_step(
            s,
            fragment,
            code,
        ).0.first_token_seen,
{
}

/// A stop marker in a fragment ends streaming, and the fragment is not printed.
pub proof fn lemma_stop_marker_ends(s: StatsView, t: String, code: SentenceCode)
    requires
        is_stop_text(t@),
    ensures
        callback_step(s, Fragment::Text(t), code).0.done,
        !callback_step(s, Fragment::Text(t), code).1.print,
{
}

/// An ordinary text fragment (no stop marker, not blank) that arrives while
/// streaming goes on and the count is below the limit is printed and counts
/// exactly one token, whatever its sentence code; the code only decides
/// whether streaming is done afterwards, as does reaching the limit.
pub proof fn lemma_ordinary_fragment_printed(s: StatsView, t: String, code: SentenceCode)
    requires
        !s.done,
        s.token_count < s.max_tokens,
        !contains_seq(t@, "<|end|>"@),
        !contains_seq(t@, "<|user|>"@),
        !contains_seq(t@, "<|endoftext|>"@),
        !contains_seq(t@, "</s>"@),
        !is_blank(t@),
    ensures
        callback_step(s, Fragment::Text(t), code).1.print,
        callback_step(s, Fragment::Text(t), code).0.token_count == s.token_count + 1,
        callback_step(s, Fragment::Text(t), code).0.whitespace_run == 0,
        callback_step(s, Fragment::Text(t), code).0.done <==> (code == SentenceCode::End || code
            == SentenceCode::Complete || code == SentenceCode::Abort || s.token_count + 1
            >= s.max_tokens),
{
}

/// A fragment that arrives after streaming is done, or that is not text,
/// is never printed; a printed fragment is always text.
pub proof fn lemma_only_text_is_printed(s: StatsView, fragment: Fragment, code: SentenceCode)
    ensures
        callback_step(s, fragment, code).1.print ==> !s.done && fragment is Text
            && s.token_count < s.max_tokens,
{
}

} // verus!
