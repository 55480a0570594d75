//! The decisions of the ONNX Runtime ("Aura") engine: its chat template, how
//! model inputs and outputs are recognised by name and how the key/value
//! cache is handed from step to step, the QNN paths, what is made of the
//! tokenizer's answers, and the state of the token-by-token decode loop.
use vstd::prelude::*;

use crate::text::{
    ascii_lower_chars,
    ascii_lower_seq,
    chars_of,
    contains_chars,
    contains_seq,
    matches_at,
    occurs_at,
    replace_all,
    replace_chars,
    str_contains,
    string_from_chars,
    trim_start_all,
    trim_start_chars,
};

verus! {

// ---------------------------------------------------------------------------
// Chat template
// ---------------------------------------------------------------------------

/// The Llama-3 chat template around a user message.
pub open spec fn llama_template(prompt: Seq<char>) -> Seq<char> {
    "<|start_header_id|>user<|end_header_id|>\n\n"@ + prompt
        + "<|eot_id|><|start_header_id|>assistant<|end_header_id|>\n\n"@
}

/// The prompt handed to the ONNX model: a prompt that already holds a header
/// marker is taken as it is, any other is wrapped in the chat template.
pub open spec fn aura_prompt(prompt: Seq<char>) -> Seq<char> {
    if contains_seq(prompt, "<|start_header_id|>"@) {
        prompt
    } else {
        llama_template(prompt)
    }
}

/// Formats a prompt for the ONNX model.
pub fn format_aura_prompt(prompt: &str) -> (r: String)
    ensures
        r@ == aura_prompt(prompt@),
        contains_seq(prompt@, "<|start_header_id|>"@) ==> r@ == prompt@,
        !contains_seq(prompt@, "<|start_header_id|>"@) ==> r@
            == "<|start_header_id|>user<|end_header_id|>\n\n"@ + prompt@
            + "<|eot_id|><|start_header_id|>assistant<|end_header_id|>\n\n"@,
{
    if str_contains(prompt, "<|start_header_id|>") {
        String::from_str(prompt)
    } else {
        let mut r = String::from_str("<|start_header_id|>user<|end_header_id|>\n\n");
        r.append(prompt);
        r.append("<|eot_id|><|start_header_id|>assistant<|end_header_id|>\n\n");
        r
    }
}

/// Formatting is idempotent: a formatted prompt is handed on unchanged.
pub proof fn lemma_aura_prompt_idempotent(prompt: Seq<char>)
    ensures
        aura_prompt(aura_prompt(prompt)) == aura_prompt(prompt),
        contains_seq(aura_prompt(prompt), "<|start_header_id|>"@),
{
    reveal_strlit("<|start_header_id|>user<|end_header_id|>\n\n");
    reveal_strlit("<|start_header_id|>");
    let t = llama_template(prompt);
    assert(t.subrange(0, 19) =~= "<|start_header_id|>"@);
    assert(occurs_at(t, "<|start_header_id|>"@, 0));
}

// ---------------------------------------------------------------------------
// Model inputs and outputs, recognised by name
// ---------------------------------------------------------------------------

/// The role of a model input.
#[derive(Clone, Copy, PartialEq, Eq, Structural, Debug)]
pub enum InputKind {
    /// The token ids of this step.
    InputIds,
    /// The attention mask over the whole context.
    AttentionMask,
    /// The positions of this step's tokens.
    PositionIds,
    /// A key/value cache from the previous step.
    PastKeyValues,
    /// An input the engine does not feed.
    Other,
}

/// The role of an input, read from its ASCII lower-cased name.
pub open spec fn input_kind(name: Seq<char>) -> InputKind {
    let lowered = ascii_lower_seq(name);
    if contains_seq(lowered, "input_ids"@) {
        InputKind::InputIds
    } else if contains_seq(lowered, "attention_mask"@) {
        InputKind::AttentionMask
    } else if contains_seq(lowered, "position_ids"@) {
        InputKind::PositionIds
    } else if contains_seq(lowered, "past_key_values"@) || contains_seq(lowered, "past"@) {
        InputKind::PastKeyValues
    } else {
        InputKind::Other
    }
}

/// Tells the role of a model input from its name.
pub fn classify_input(name: &str) -> (k: InputKind)
    ensures
        k == input_kind(name@),
        ({
            let lowered = ascii_lower_seq(name@);
            &&& contains_seq(lowered, "input_ids"@) ==> k == InputKind::InputIds
            &&& !contains_seq(lowered, "input_ids"@) && contains_seq(lowered, "attention_mask"@)
                ==> k == InputKind::AttentionMask
            &&& !contains_seq(lowered, "input_ids"@) && !contains_seq(lowered, "attention_mask"@)
                && contains_seq(lowered, "position_ids"@) ==> k == InputKind::PositionIds
            &&& !contains_seq(lowered, "input_ids"@) && !contains_seq(lowered, "attention_mask"@)
                && !contains_seq(lowered, "position_ids"@) && contains_seq(lowered, "past"@) ==> k
                == InputKind::PastKeyValues
            &&& !contains_seq(lowered, "input_ids"@) && !contains_seq(lowered, "attention_mask"@)
                && !contains_seq(lowered, "position_ids"@) && !contains_seq(lowered, "past"@) ==> k
                == InputKind::Other
        }),
{
    proof {
        lemma_input_kind_by_name(name@);
    }
    let chars = chars_of(name);
    let lowered = ascii_lower_chars(&chars);
    if contains_chars(&lowered, &chars_of("input_ids")) {
        InputKind::InputIds
    } else if contains_chars(&lowered, &chars_of("attention_mask")) {
        InputKind::AttentionMask
    } else if contains_chars(&lowered, &chars_of("position_ids")) {
        InputKind::PositionIds
    } else if contains_chars(&lowered, &chars_of("past_key_values")) || contains_chars(
        &lowered,
        &chars_of("past"),
    ) {
        InputKind::PastKeyValues
    } else {
        InputKind::Other
    }
}

/// The name of the output that feeds a cache input: each `past_key_values`
/// becomes `present`, and then each remaining `past` does too.
pub open spec fn present_name(name: Seq<char>) -> Seq<char> {
    replace_all(replace_all(name, "past_key_values"@, "present"@), "past"@, "present"@)
}

/// Computes the name of the output whose value feeds the cache input `name`.
pub fn present_name_for(name: &str) -> (r: String)
    ensures
        r@ == present_name(name@),
{
    proof {
        reveal_strlit("past_key_values");
        reveal_strlit("past");
    }
    let chars = chars_of(name);
    let first = replace_chars(&chars, &chars_of("past_key_values"), &chars_of("present"));
    let second = replace_chars(&first, &chars_of("past"), &chars_of("present"));
    string_from_chars(&second)
}

/// An output is kept as the next step's cache when its name holds `present`.
pub open spec fn is_present_output(name: Seq<char>) -> bool {
    contains_seq(name, "present"@)
}

/// Whether an output of this step is kept as the next step's cache.
pub fn keeps_as_cache(name: &str) -> (b: bool)
    ensures
        b == is_present_output(name@),
{
    str_contains(name, "present")
}

/// Which of the outputs cached from the previous step feeds the cache input
/// `input_name`: the first one named as [`present_name`] maps the input's
/// name, or `None` when no cached output has that name (the input is then fed
/// an empty cache).
pub fn cached_output_for(input_name: &str, cached_names: &Vec<String>) -> (r: Option<usize>)
    ensures
        r matches Some(i) ==> {
            &&& i < cached_names@.len()
            &&& cached_names@[i as int]@ == present_name(input_name@)
            &&& forall|j: int|
                0 <= j < i ==> #[trigger] cached_names@[j]@ != present_name(input_name@)
        },
        r is None ==> forall|j: int|
            0 <= j < cached_names@.len() ==> #[trigger] cached_names@[j]@ != present_name(
                input_name@,
            ),
{
    let wanted = present_name_for(input_name);
    let mut i: usize = 0;
    while i < cached_names.len()
        invariant
            wanted@ == present_name(input_name@),
            i <= cached_names@.len(),
            forall|j: int| 0 <= j < i ==> #[trigger] cached_names@[j]@ != present_name(input_name@),
        decreases cached_names.len() - i,
    {
        if str_equals(cached_names[i].as_str(), wanted.as_str()) {
            return Some(i);
        }
        i += 1;
    }
    None
}

/// The indices, in increasing order, of the outputs of a step that are kept
/// as the next step's cache: exactly those whose name holds `present`.
pub fn cache_outputs(output_names: &Vec<String>) -> (r: Vec<usize>)
    ensures
        forall|k: int|
            0 <= k < r@.len() ==> #[trigger] r@[k] < output_names@.len() && is_present_output(
                output_names@[r@[k] as int]@,
            ),
        forall|k: int, l: int| 0 <= k < l < r@.len() ==> #[trigger] r@[k] < #[trigger] r@[l],
        forall|i: int|
            0 <= i < output_names@.len() && is_present_output(#[trigger] output_names@[i]@)
                ==> r@.contains(i as usize),
{
    let mut r: Vec<usize> = Vec::new();
    let mut i: usize = 0;
    while i < output_names.len()
        invariant
            i <= output_names@.len(),
            forall|k: int|
                0 <= k < r@.len() ==> #[trigger] r@[k] < i && is_present_output(
                    output_names@[r@[k] as int]@,
                ),
            forall|k: int, l: int| 0 <= k < l < r@.len() ==> #[trigger] r@[k] < #[trigger] r@[l],
            forall|j: int|
                0 <= j < i && is_present_output(#[trigger] output_names@[j]@) ==> r@.contains(
                    j as usize,
                ),
        decreases output_names.len() - i,
    {
        if keeps_as_cache(output_names[i].as_str()) {
            let ghost before = r@;
            r.push(i);
            assert(forall|j: int| 0 <= j < before.len() ==> r@[j] == before[j]);
            assert(r@[before.len() as int] == i);
            assert forall|j: int|
                0 <= j < i + 1 && is_present_output(#[trigger] output_names@[j]@) implies r@.contains(
                j as usize,
            ) by {
                if j < i {
                    let k = choose|k: int| 0 <= k < before.len() && before[k] == j as usize;
                    assert(r@[k] == j as usize);
                } else {
                    assert(r@[before.len() as int] == j as usize);
                }
            }
        }
        i += 1;
    }
    r
}

/// The output that carries the logits: one whose name holds `logits`, or is
/// `output` or `output_0`.
pub open spec fn is_logits_output(name: Seq<char>) -> bool {
    contains_seq(name, "logits"@) || name == "output"@ || name == "output_0"@
}

/// Whether two texts are equal.
fn str_equals(a: &str, b: &str) -> (r: bool)
    ensures
        r == (a@ == b@),
{
    let x = chars_of(a);
    let y = chars_of(b);
    if x.len() != y.len() {
        return false;
    }
    let m = matches_at(&x, &y, 0);
    assert(x@.subrange(0, y@.len() as int) =~= x@);
    m
}

/// Whether an output carries the logits.
pub fn is_logits_name(name: &str) -> (b: bool)
    ensures
        b == is_logits_output(name@),
{
    str_contains(name, "logits") || str_equals(name, "output") || str_equals(name, "output_0")
}

/// The index of the first output that carries the logits, or 0 when none does.
pub fn logits_output_index(names: &Vec<String>) -> (r: usize)
    ensures
        (exists|i: int| 0 <= i < names@.len() && is_logits_output(#[trigger] names@[i]@)) ==> {
            &&& r < names@.len()
            &&& is_logits_output(names@[r as int]@)
            &&& forall|j: int| 0 <= j < r ==> !is_logits_output(#[trigger] names@[j]@)
        },
        !(exists|i: int| 0 <= i < names@.len() && is_logits_output(#[trigger] names@[i]@)) ==> r
            == 0,
{
    let mut i: usize = 0;
    while i < names.len()
        invariant
            i <= names@.len(),
            forall|j: int| 0 <= j < i ==> !is_logits_output(#[trigger] names@[j]@),
        decreases names.len() - i,
    {
        if is_logits_name(names[i].as_str()) {
            return i;
        }
        i += 1;
    }
    0
}

/// One dimension of an empty cache tensor: a dynamic (negative) dimension
/// becomes 1.
pub open spec fn empty_cache_dim(d: i64) -> i64 {
    if d < 0 {
        1
    } else {
        d
    }
}

/// The shape of the empty cache fed at the first step: dynamic dimensions
/// become 1 and the sequence dimension (the third) becomes 0.
pub fn empty_cache_shape(shape: &Vec<i64>) -> (r: Vec<i64>)
    ensures
        r@.len() == shape@.len(),
        forall|i: int|
            0 <= i < r@.len() ==> #[trigger] r@[i] == if i == 2 {
                0
            } else {
                empty_cache_dim(shape@[i])
            },
{
    let mut r: Vec<i64> = Vec::new();
    let mut i: usize = 0;
    while i < shape.len()
        invariant
            i <= shape@.len(),
            r@.len() == i,
            forall|k: int| 0 <= k < i ==> #[trigger] r@[k] == empty_cache_dim(shape@[k]),
        decreases shape.len() - i,
    {
        let d: i64 = shape[i];
        r.push(if d < 0 { 1 } else { d });
        i += 1;
    }
    if r.len() >= 3 {
        r.set(2, 0);
    }
    r
}

/// A token id that ends generation for the Llama-3 models.
pub open spec fn is_stop_token_id(token: i64) -> bool {
    token == 128001 || token == 128009 || token == 2 || token == 1
}

/// Whether a generated token ends generation.
pub fn is_stop_token(token: i64) -> (stop: bool)
    ensures
        stop == is_stop_token_id(token),
        stop <==> (token == 128001 || token == 128009 || token == 2 || token == 1),
{
    token == 128001 || token == 128009 || token == 2 || token == 1
}

// ---------------------------------------------------------------------------
// QNN paths
// ---------------------------------------------------------------------------

/// The Hexagon library directory under a QNN SDK root.
pub fn hexagon_library_dir(sdk_root: &str) -> (r: String)
    ensures
        r@ == sdk_root@ + "\\lib\\hexagon-v73\\unsigned"@,
{
    let mut r = String::from_str(sdk_root);
    r.append("\\lib\\hexagon-v73\\unsigned");
    r
}

/// The directory of the QNN libraries for Windows on ARM under an SDK root.
pub fn qnn_library_dir(sdk_root: &str) -> (r: String)
    ensures
        r@ == sdk_root@ + "\\lib\\aarch64-windows-msvc"@,
{
    let mut r = String::from_str(sdk_root);
    r.append("\\lib\\aarch64-windows-msvc");
    r
}

/// The QNN HTP backend library under an SDK root.
pub fn qnn_backend_path(sdk_root: &str) -> (r: String)
    ensures
        r@ == sdk_root@ + "\\lib\\aarch64-windows-msvc\\QnnHtp.dll"@,
{
    let mut r = String::from_str(sdk_root);
    r.append("\\lib\\aarch64-windows-msvc\\QnnHtp.dll");
    r
}

/// The search path with `lib_dir` put in front, or `None` when the search
/// path already holds it.
pub fn path_with_library_dir(current_path: &str, lib_dir: &str) -> (r: Option<String>)
    ensures
        contains_seq(current_path@, lib_dir@) ==> r is None,
        !contains_seq(current_path@, lib_dir@) ==> (r matches Some(p) && p@ == lib_dir@ + ";"@
            + current_path@),
{
    if str_contains(current_path, lib_dir) {
        None
    } else {
        let mut r = String::from_str(lib_dir);
        r.append(";");
        r.append(current_path);
        Some(r)
    }
}

/// The name of the QNN context cache file of a model.
pub fn qnn_cache_file_name(model_stem: &str) -> (r: String)
    ensures
        r@ == model_stem@ + "_qnn_cache.bin"@,
{
    let mut r = String::from_str(model_stem);
    r.append("_qnn_cache.bin");
    r
}

/// A path without the Windows verbatim prefix `\\?\`, removed as many times
/// as it repeats at the front.
pub fn strip_verbatim_prefix(path: &str) -> (r: String)
    ensures
        r@ == trim_start_all(path@, "\\\\?\\"@),
{
    proof {
        reveal_strlit("\\\\?\\");
    }
    let chars = chars_of(path);
    let trimmed = trim_start_chars(&chars, &chars_of("\\\\?\\"));
    string_from_chars(&trimmed)
}

// ---------------------------------------------------------------------------
// The decode loop
// ---------------------------------------------------------------------------

/// The most tokens a context may hold: a `Vec<i64>` cannot hold more on any
/// target, and it keeps every position within `i64`.
pub open spec fn max_context() -> nat {
    0x1000_0000_0000_0000
}

/// Whether a context of `len` tokens stays within [`max_context`].
pub fn fits_context(len: usize) -> (b: bool)
    ensures
        b == (len <= max_context()),
{
    (len as u64) <= 0x1000_0000_0000_0000u64
}

/// The abstract state of a decode loop.
pub struct DecodeView {
    /// The context: the prompt tokens followed by the accepted tokens.
    pub tokens: Seq<i64>,
    /// The tokens to feed at the next step.
    pub pending: Seq<i64>,
    /// The number of prompt tokens.
    pub prompt_len: nat,
    /// The number of steps run so far.
    pub step: nat,
    /// The most steps the loop may run.
    pub max_steps: nat,
    /// No further step is to run.
    pub finished: bool,
}

/// The decode loop's invariant.
pub open spec fn decode_wf(v: DecodeView) -> bool {
    &&& v.step <= v.max_steps
    &&& !v.finished ==> v.step < v.max_steps
    &&& !v.finished ==> v.tokens.len() == v.prompt_len + v.step
    &&& v.prompt_len <= v.tokens.len() <= v.prompt_len + v.step
    &&& v.tokens.len() <= max_context()
    &&& v.tokens.len() == v.prompt_len ==> v.pending == v.tokens
    &&& v.tokens.len() > v.prompt_len ==> v.pending == seq![v.tokens.last()]
}

/// The number of cached positions the next step builds on.
pub open spec fn past_len_of(v: DecodeView) -> int {
    if v.step == 0 {
        0
    } else {
        v.tokens.len() - 1
    }
}

/// One step of the loop, given the token the model chose: a stop token
/// finishes the loop and is not kept; any other token is appended to the
/// context and fed alone at the next step, and the loop finishes once it has
/// run its last step. The flag tells whether the token was kept.
pub open spec fn decode_step(v: DecodeView, token: i64) -> (DecodeView, bool) {
    let stepped = v.step + 1;
    if is_stop_token_id(token) {
        (DecodeView { step: stepped, finished: true, ..v }, false)
    } else {
        (
            DecodeView {
                tokens: v.tokens.push(token),
                pending: seq![token],
                step: stepped,
                finished: stepped == v.max_steps,
                ..v
            },
            true,
        )
    }
}

/// The state of the token-by-token decode loop.
pub struct DecodeState {
    tokens: Vec<i64>,
    pending: Vec<i64>,
    prompt_len: usize,
    step: usize,
    max_steps: usize,
    finished: bool,
}

impl View for DecodeState {
    type V = DecodeView;

    closed spec fn view(&self) -> DecodeView {
        DecodeView {
            tokens: self.tokens@,
            pending: self.pending@,
            prompt_len: self.prompt_len as nat,
            step: self.step as nat,
            max_steps: self.max_steps as nat,
            finished: self.finished,
        }
    }
}

/// A copy of a token sequence.
fn copy_tokens(v: &Vec<i64>) -> (r: Vec<i64>)
    ensures
        r@ == v@,
{
    let mut r: Vec<i64> = Vec::new();
    let mut i: usize = 0;
    while i < v.len()
        invariant
            i <= v@.len(),
            r@ == v@.take(i as int),
        decreases v.len() - i,
    {
        r.push(v[i]);
        i += 1;
        assert(r@ =~= v@.take(i as int));
    }
    assert(r@ =~= v@);
    r
}

impl DecodeState {
    /// A loop that starts from the prompt tokens and runs at most
    /// `max_steps` steps.
    pub fn new(prompt_tokens: Vec<i64>, max_steps: usize) -> (s: Self)
        requires
            prompt_tokens@.len() <= max_context(),
        ensures
            s@ == (DecodeView {
                tokens: prompt_tokens@,
                pending: prompt_tokens@,
                prompt_len: prompt_tokens@.len(),
                step: 0,
                max_steps: max_steps as nat,
                finished: max_steps == 0,
            }),
            decode_wf(s@),
    {
        let pending = copy_tokens(&prompt_tokens);
        let prompt_len: usize = prompt_tokens.len();
        DecodeState {
            tokens: prompt_tokens,
            pending,
            prompt_len,
            step: 0,
            max_steps,
            finished: max_steps == 0,
        }
    }

    /// Whether no further step is to run.
    pub fn is_finished(&self) -> (b: bool)
        ensures
            b == self@.finished,
    {
        self.finished
    }

    /// The context: prompt tokens followed by accepted tokens.
    pub fn tokens(&self) -> (r: &Vec<i64>)
        ensures
            r@ == self@.tokens,
    {
        &self.tokens
    }

    /// Whether the context has room for one more token.
    pub fn has_room(&self) -> (b: bool)
        ensures
            b == (self@.tokens.len() < max_context()),
    {
        (self.tokens.len() as u64) < 0x1000_0000_0000_0000u64
    }

    /// The token ids to feed at this step.
    pub fn input_ids(&self) -> (r: Vec<i64>)
        ensures
            r@ == self@.pending,
    {
        copy_tokens(&self.pending)
    }

    /// The shape of the token ids of this step: one batch of them.
    pub fn input_ids_shape(&self) -> (r: Vec<i64>)
        requires
            decode_wf(self@),
        ensures
            r@ == seq![1i64, self@.pending.len() as i64],
    {
        vec![1, self.pending.len() as i64]
    }

    /// The attention mask of this step: a 1 for every token of the context.
    pub fn attention_mask(&self) -> (r: Vec<i64>)
        ensures
            r@.len() == self@.tokens.len(),
            forall|i: int| 0 <= i < r@.len() ==> #[trigger] r@[i] == 1,
    {
        let mut r: Vec<i64> = Vec::new();
        let mut i: usize = 0;
        while i < self.tokens.len()
            invariant
                i <= self.tokens@.len(),
                r@.len() == i,
                forall|k: int| 0 <= k < i ==> #[trigger] r@[k] == 1,
            decreases self.tokens.len() - i,
        {
            r.push(1);
            i += 1;
        }
        r
    }

    /// The shape of the attention mask: one batch over the whole context.
    pub fn attention_mask_shape(&self) -> (r: Vec<i64>)
        requires
            decode_wf(self@),
        ensures
            r@ == seq![1i64, self@.tokens.len() as i64],
    {
        vec![1, self.tokens.len() as i64]
    }

    /// The number of cached positions this step builds on.
    pub fn past_len(&self) -> (r: i64)
        requires
            decode_wf(self@),
            !self@.finished,
        ensures
            r == past_len_of(self@),
    {
        if self.step == 0 {
            0
        } else {
            (self.tokens.len() - 1) as i64
        }
    }

    /// The positions of this step's tokens: they follow the cached ones.
    pub fn position_ids(&self) -> (r: Vec<i64>)
        requires
            decode_wf(self@),
            !self@.finished,
        ensures
            r@.len() == self@.pending.len(),
            forall|i: int| 0 <= i < r@.len() ==> #[trigger] r@[i] == past_len_of(self@) + i,
    {
        let past: i64 = self.past_len();
        let n: usize = self.pending.len();
        let mut r: Vec<i64> = Vec::new();
        let mut i: usize = 0;
        while i < n
            invariant
                decode_wf(self@),
                !self@.finished,
                past == past_len_of(self@),
                n == self@.pending.len(),
                i <= n,
                r@.len() == i,
                forall|k: int| 0 <= k < i ==> #[trigger] r@[k] == past + k,
            decreases n - i,
        {
            r.push(past + i as i64);
            i += 1;
        }
        r
    }

    /// Runs the decisions of one step, given the token the model chose, and
    /// tells whether the token was kept (and is to be shown).
    pub fn advance(&mut self, token: i64) -> (kept: bool)
        requires
            decode_wf(old(self)@),
            !old(self)@.finished,
            old(self)@.tokens.len() < max_context(),
        ensures
            (final(self)@, kept) == decode_step(old(self)@, token),
            decode_wf(final(self)@),
            kept <==> !(token == 128001 || token == 128009 || token == 2 || token == 1),
            kept ==> final(self)@.tokens == old(self)@.tokens.push(token),
            !kept ==> final(self)@.tokens == old(self)@.tokens && final(self)@.finished,
    {
        self.step = self.step + 1;
        if is_stop_token(token) {
            self.finished = true;
            return false;
        }
        self.tokens.push(token);
        self.pending = vec![token];
        assert(self.pending@ =~= seq![token]);
        if self.step == self.max_steps {
            self.finished = true;
        }
        true
    }
}

/// The invariant holds of every state a step leads to.
pub proof fn lemma_step_keeps_invariant(v: DecodeView, token: i64)
    requires
        decode_wf(v),
        !v.finished,
        v.tokens.len() < max_context(),
    ensures
        decode_wf(decode_step(v, token).0),
{
}

/// A stop token never enters the context, and it ends the loop.
pub proof fn lemma_stop_token_not_kept(v: DecodeView, token: i64)
    requires
        is_stop_token_id(token),
    ensures
        decode_step(v, token).0.tokens == v.tokens,
        decode_step(v, token).0.finished,
        !decode_step(v, token).1,
{
}

/// The loop never appends more tokens than it may run steps: the context
/// holds the prompt followed by at most `max_steps` generated tokens.
pub proof fn lemma_generated_within_limit(v: DecodeView)
    requires
        decode_wf(v),
    ensures
        v.tokens.len() <= v.prompt_len + v.max_steps,
{
}

/// The positions fed at a step are the last ones of the context: they start
/// at the cached length and end where the attention mask ends.
pub proof fn lemma_positions_end_at_context(v: DecodeView)
    requires
        decode_wf(v),
        !v.finished,
    ensures
        past_len_of(v) + v.pending.len() == v.tokens.len(),
{
}

// ---------------------------------------------------------------------------
// Tokenizer results
// ---------------------------------------------------------------------------

/// Token ids widened to the model's `i64`.
pub fn widen_ids(ids: &Vec<u32>) -> (r: Vec<i64>)
    ensures
        r@.len() == ids@.len(),
        forall|i: int| 0 <= i < r@.len() ==> #[trigger] r@[i] == ids@[i] as i64,
{
    let mut r: Vec<i64> = Vec::new();
    let mut i: usize = 0;
    while i < ids.len()
        invariant
            i <= ids@.len(),
            r@.len() == i,
            forall|k: int| 0 <= k < i ==> #[trigger] r@[k] == ids@[k] as i64,
        decreases ids.len() - i,
    {
        r.push(ids[i] as i64);
        i += 1;
    }
    r
}

/// The model's token ids from the tokenizer's answer: the ids widened to
/// `i64`, or the tokenizer's error unchanged.
pub fn tokens_from_encoding(encoded: Result<Vec<u32>, String>) -> (r: Result<Vec<i64>, String>)
    ensures
        encoded matches Ok(ids) ==> (r matches Ok(tokens) && tokens@.len() == ids@.len() && forall|
            i: int,
        |
            0 <= i < tokens@.len() ==> #[trigger] tokens@[i] == ids@[i] as i64),
        encoded matches Err(e) ==> r == Err::<Vec<i64>, String>(e),
{
    match encoded {
        Ok(ids) => Ok(widen_ids(&ids)),
        Err(e) => Err(e),
    }
}

/// The text shown for a generated token: the decoded text, or nothing when
/// the tokenizer failed.
pub fn token_text(decoded: Result<String, String>) -> (r: String)
    ensures
        decoded matches Ok(t) ==> r@ == t@,
        decoded is Err ==> r@ == Seq::<char>::empty(),
{
    match decoded {
        Ok(text) => text,
        Err(_) => String::new(),
    }
}

/// A prompt that holds `<|start_header_id|>` anywhere is handed to the model
/// exactly as it is; any other prompt is wrapped once in the Llama-3 template.
pub proof fn lemma_aura_prompt_wraps_only_unmarked(prompt: Seq<char>)
    ensures
        contains_seq(prompt, "<|start_header_id|>"@) ==> aura_prompt(prompt) == prompt,
        !contains_seq(prompt, "<|start_header_id|>"@) ==> aura_prompt(prompt)
            == "<|start_header_id|>user<|end_header_id|>\n\n"@ + prompt
            + "<|eot_id|><|start_header_id|>assistant<|end_header_id|>\n\n"@,
{
}

/// A name that holds `past_key_values` holds `past`.
proof fn lemma_past_key_values_has_past(s: Seq<char>)
    requires
        contains_seq(s, "past_key_values"@),
    ensures
        contains_seq(s, "past"@),
{
    reveal_strlit("past_key_values");
    reveal_strlit("past");
    let i = choose|i: int| occurs_at(s, "past_key_values"@, i);
    assert(s.subrange(i, i + 4) =~= "past"@) by {
        assert(s.subrange(i, i + 15) == "past_key_values"@);
        assert forall|k: int| 0 <= k < 4 implies s.subrange(i, i + 4)[k] == "past"@[k] by {
            assert(s.subrange(i, i + 15)[k] == s[i + k]);
        }
    }
    assert(occurs_at(s, "past"@, i));
}

/// The role of an input follows from its lower-cased name: `input_ids` first,
/// then `attention_mask`, then `position_ids`; any other name that holds
/// `past` is a key/value cache input (every `past_key_values.N.key` and
/// `past_key_values.N.value` among them), and the rest are not fed.
pub proof fn lemma_input_kind_by_name(name: Seq<char>)
    ensures
        ({
            let lowered = ascii_lower_seq(name);
            &&& contains_seq(lowered, "input_ids"@) ==> input_kind(name) == InputKind::InputIds
            &&& !contains_seq(lowered, "input_ids"@) && contains_seq(lowered, "attention_mask"@)
                ==> input_kind(name) == InputKind::AttentionMask
            &&& !contains_seq(lowered, "input_ids"@) && !contains_seq(lowered, "attention_mask"@)
                && contains_seq(lowered, "position_ids"@) ==> input_kind(name)
                == InputKind::PositionIds
            &&& !contains_seq(lowered, "input_ids"@) && !contains_seq(lowered, "attention_mask"@)
                && !contains_seq(lowered, "position_ids"@) && contains_seq(lowered, "past"@)
                ==> input_kind(name) == InputKind::PastKeyValues
            &&& !contains_seq(lowered, "input_ids"@) && !contains_seq(lowered, "attention_mask"@)
                && !contains_seq(lowered, "position_ids"@) && !contains_seq(lowered, "past"@)
                ==> input_kind(name) == InputKind::Other
        }),
{
    let lowered = ascii_lower_seq(name);
    if contains_seq(lowered, "past_key_values"@) {
        lemma_past_key_values_has_past(lowered);
    }
}

/// Exactly the ids 128001, 128009, 2 and 1 end the decode loop: a step with
/// any other id keeps it, appends it to the context and feeds it next.
pub proof fn lemma_only_end_ids_stop(v: DecodeView, token: i64)
    ensures
        decode_step(v, token).1 <==> !(token == 128001 || token == 128009 || token == 2 || token
            == 1),
        !(token == 128001 || token == 128009 || token == 2 || token == 1) ==> {
            &&& decode_step(v, token).0.tokens == v.tokens.push(token)
            &&& decode_step(v, token).0.pending == seq![token]
        },
        (token == 128001 || token == 128009 || token == 2 || token == 1) ==> {
            &&& decode_step(v, token).0.tokens == v.tokens
            &&& decode_step(v, token).0.finished
        },
{
}

} // verus!
