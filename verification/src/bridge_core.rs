//! The decisions of the push-to-talk bridge: the dialog context carried across
//! utterances, what happens to each utterance given its target window and its
//! recognition result, and the names of the per-utterance result files.
use std::collections::VecDeque;

use vstd::prelude::*;
use vstd::std_specs::vecdeque::group_vec_dequeue_axioms;

use crate::json::{decimal, decimal_string, encode_json_text, join, json_string, json_text, Json, JsonValue};
use crate::mai::{views, MaiOptions};
use crate::protocol::{hint_set, CorpusOptions};
use crate::platform::types::WindowInfo;
use crate::text::{
    chars_eq_str, chars_of, is_blank, normalized, normalized_chars, str_is_blank, string_push,
    string_push_str, to_string, trim, trim_str,
};

verus! {

broadcast use group_vec_dequeue_axioms;

/// Recent final texts, newest first, sent as dialog context with the next
/// utterances.
pub struct AutoDialogContext {
    enabled: bool,
    max_items: usize,
    max_bytes: usize,
    items_newest_first: VecDeque<String>,
}

/// The model of a dialog context.
pub struct DialogState {
    pub enabled: bool,
    pub max_items: nat,
    pub max_bytes: nat,
    pub items: Seq<Seq<char>>,
}

/// The UTF-8 length of a text in bytes, as `str::len` reports it.
pub open spec fn utf8_len(s: Seq<char>) -> nat {
    (vstd::utf8::encode_utf8(s).len() as usize) as nat
}

/// The context document for `items`: `{"context_type": "dialog_ctx",
/// "context_data": [{"text": ...}, ...]}`.
pub open spec fn dialog_document(items: Seq<Seq<char>>) -> Json {
    Json::Object(
        seq![
            ("context_type"@, Json::Str("dialog_ctx"@)),
            (
                "context_data"@,
                Json::Array(
                    Seq::new(
                        items.len(),
                        |i: int| Json::Object(seq![("text"@, Json::Str(items[i]))]),
                    ),
                ),
            ),
        ],
    )
}

/// The context text for the newest `k` items, dropping the oldest while the
/// text is longer than `max_bytes` (when that is not 0) and more than one item
/// is left.
pub open spec fn context_for(items: Seq<Seq<char>>, k: nat, max_bytes: nat) -> Option<Seq<char>>
    decreases k,
{
    match json_text(dialog_document(items.take(k as int))) {
        None => None,
        Some(t) => if max_bytes > 0 && utf8_len(t) > max_bytes && k > 1 {
            context_for(items, (k - 1) as nat, max_bytes)
        } else {
            Some(t)
        },
    }
}

/// The dialog context of a state: none when disabled or empty.
pub open spec fn spec_build_context(s: DialogState) -> Option<Seq<char>> {
    if !s.enabled || s.items.len() == 0 {
        None
    } else {
        context_for(s.items, s.items.len(), s.max_bytes)
    }
}

/// The state after a final text: unchanged when disabled, when the text is
/// blank, or when it repeats the newest item; otherwise the trimmed text goes
/// in front and the oldest items beyond `max_items` are dropped.
pub open spec fn spec_ingest(s: DialogState, text: Seq<char>) -> DialogState {
    if !s.enabled || is_blank(text) || (s.items.len() > 0 && s.items[0] == trim(text)) {
        s
    } else {
        let grown = seq![trim(text)] + s.items;
        DialogState {
            items: if grown.len() > s.max_items {
                grown.take(s.max_items as int)
            } else {
                grown
            },
            ..s
        }
    }
}

/// The invariant of a dialog context: at least one item allowed, at most
/// `max_items` kept, each trimmed and not blank, no item equal to the next.
pub open spec fn dialog_wf(s: DialogState) -> bool {
    &&& s.max_items >= 1
    &&& s.items.len() <= s.max_items
    &&& forall|i: int| 0 <= i < s.items.len() ==> #[trigger] trim(s.items[i]) == s.items[i]
    &&& forall|i: int| 0 <= i < s.items.len() ==> !is_blank(#[trigger] s.items[i])
    &&& forall|i: int| 0 <= i < s.items.len() - 1 ==> #[trigger] s.items[i] != s.items[i + 1]
}

impl AutoDialogContext {
    pub closed spec fn state(&self) -> DialogState {
        DialogState {
            enabled: self.enabled,
            max_items: self.max_items as nat,
            max_bytes: self.max_bytes as nat,
            items: Seq::new(
                self.items_newest_first@.len(),
                |i: int| self.items_newest_first@[i]@,
            ),
        }
    }

    pub closed spec fn wf(&self) -> bool {
        dialog_wf(self.state())
    }

    /// An empty context keeping at most `max_items` (at least one) texts whose
    /// document is at most `max_bytes` long (0: no limit).
    pub fn new(enabled: bool, max_items: usize, max_bytes: usize) -> (res: Self)
        ensures
            res.wf(),
            res.state() == (DialogState {
                enabled,
                max_items: if max_items >= 1 {
                    max_items as nat
                } else {
                    1
                },
                max_bytes: max_bytes as nat,
                items: Seq::empty(),
            }),
    {
        let res = AutoDialogContext {
            enabled,
            max_items: if max_items >= 1 {
                max_items
            } else {
                1
            },
            max_bytes,
            items_newest_first: VecDeque::new(),
        };
        assert(res.state().items =~= Seq::<Seq<char>>::empty());
        res
    }

    /// Records a final text as the newest dialog item.
    pub fn ingest_final_text(&mut self, text: &str)
        requires
            old(self).wf(),
        ensures
            final(self).wf(),
            final(self).state() == spec_ingest(old(self).state(), text@),
    {
        if !self.enabled {
            return;
        }
        if str_is_blank(text) {
            return;
        }
        let trimmed = trim_str(text);
        if self.items_newest_first.len() > 0 {
            let latest = &self.items_newest_first[0];
            if *latest == trimmed {
                return;
            }
        }
        let ghost before = self.state();
        proof {
            crate::text::lemma_trim_idempotent(text@);
        }
        self.items_newest_first.push_front(trimmed);
        let ghost grown = seq![trim(text@)] + before.items;
        assert(self.state().items =~= grown);
        while self.items_newest_first.len() > self.max_items
            invariant
                self.max_items == before.max_items,
                self.max_items >= 1,
                self.enabled == before.enabled,
                self.max_bytes == before.max_bytes,
                before.items.len() <= before.max_items,
                self.state().items.len() <= grown.len(),
                self.state().items.len() >= self.max_items || self.state().items == grown,
                self.state().items == grown.take(self.state().items.len() as int),
            decreases self.items_newest_first.len(),
        {
            let ghost prev = self.state().items;
            self.items_newest_first.pop_back();
            assert(self.state().items =~= prev.drop_last());
            assert(grown.take(prev.len() - 1) =~= prev.drop_last());
        }
        proof {
            let after = self.state().items;
            if grown.len() > before.max_items {
                assert(after =~= grown.take(before.max_items as int));
            } else {
                assert(after =~= grown);
            }
            assert forall|i: int| 0 <= i < after.len() - 1 implies #[trigger] after[i] != after[i
                + 1] by {
                if i > 0 {
                    assert(after[i] == before.items[i - 1]);
                    assert(after[i + 1] == before.items[i]);
                } else {
                    assert(after[0] == trim(text@));
                    assert(after[1] == before.items[0]);
                }
            }
            assert forall|i: int| 0 <= i < after.len() implies #[trigger] trim(after[i]) == after[i]
                && !is_blank(after[i]) by {
                if i > 0 {
                    assert(after[i] == before.items[i - 1]);
                } else {
                    assert(after[0] == trim(text@));
                }
            }
        }
    }

    /// The `corpus.context` sent with the next utterance: the dialog context
    /// when there is one; otherwise nothing when the dialog context is
    /// enabled (a static context is not mixed in), else the static context.
    pub fn utterance_context(&self, static_context: &Option<String>) -> (res: Option<String>)
        ensures
            match spec_build_context(self.state()) {
                Some(t) => res matches Some(r) && r@ == t,
                None => if self.state().enabled {
                    res is None
                } else {
                    match static_context {
                        Some(c) => res matches Some(r) && r@ == c@,
                        None => res is None,
                    }
                },
            },
    {
        match self.build_context() {
            Some(context) => Some(context),
            None => {
                if self.enabled {
                    None
                } else {
                    match static_context {
                        Some(c) => Some(c.clone()),
                        None => None,
                    }
                }
            },
        }
    }

    /// The dialog context document for the next utterance.
    pub fn build_context(&self) -> (res: Option<String>)
        ensures
            match res {
                Some(t) => spec_build_context(self.state()) == Some(t@),
                None => spec_build_context(self.state()) is None,
            },
    {
        let n = self.items_newest_first.len();
        if !self.enabled || n == 0 {
            return None;
        }
        let ghost items = self.state().items;
        let mut k: usize = n;
        loop
            invariant
                1 <= k <= n,
                self.enabled,
                n == items.len(),
                items == self.state().items,
                self.max_bytes as nat == self.state().max_bytes,
                context_for(items, n as nat, self.max_bytes as nat) == context_for(
                    items,
                    k as nat,
                    self.max_bytes as nat,
                ),
            decreases k,
        {
            let document = self.document_of(k);
            let text = match encode_json_text(&document) {
                Ok(t) => t,
                Err(_) => {
                    return None;
                },
            };
            if self.max_bytes > 0 && text.as_str().len() > self.max_bytes && k > 1 {
                k = k - 1;
                continue;
            }
            proof {
                assert(json_text(dialog_document(items.take(k as int))) == Some(text@));
                assert(context_for(items, k as nat, self.max_bytes as nat) == Some(text@));
            }
            return Some(text);
        }
    }

    fn document_of(&self, k: usize) -> (res: JsonValue)
        requires
            k <= self.items_newest_first@.len(),
        ensures
            res.model() == dialog_document(self.state().items.take(k as int)),
    {
        let ghost items = self.state().items.take(k as int);
        let mut entries: Vec<JsonValue> = Vec::new();
        let mut i: usize = 0;
        while i < k
            invariant
                k <= self.items_newest_first@.len(),
                i <= k,
                items == self.state().items.take(k as int),
                entries@.len() == i,
                forall|j: int|
                    0 <= j < i ==> #[trigger] entries@[j].model() == Json::Object(
                        seq![("text"@, Json::Str(items[j]))],
                    ),
            decreases k - i,
        {
            let mut member: Vec<(String, JsonValue)> = Vec::new();
            member.push((to_string("text"), json_string(self.items_newest_first[i].as_str())));
            let obj = JsonValue::Object(member);
            proof {
                let m = match obj.model() {
                    Json::Object(es) => es,
                    _ => Seq::empty(),
                };
                assert(m =~= seq![("text"@, Json::Str(items[i as int]))]);
            }
            entries.push(obj);
            i = i + 1;
        }
        let data = JsonValue::Array(entries);
        proof {
            let ms = match data.model() {
                Json::Array(ms) => ms,
                _ => Seq::empty(),
            };
            let expected = Seq::new(
                items.len(),
                |j: int| Json::Object(seq![("text"@, Json::Str(items[j]))]),
            );
            assert forall|j: int| 0 <= j < ms.len() implies ms[j] == expected[j] by {
                assert(ms[j] == entries@[j].model());
            }
            assert(ms =~= expected);
        }
        let mut top: Vec<(String, JsonValue)> = Vec::new();
        top.push((to_string("context_type"), json_string("dialog_ctx")));
        top.push((to_string("context_data"), data));
        let res = JsonValue::Object(top);
        proof {
            let m = match res.model() {
                Json::Object(es) => es,
                _ => Seq::empty(),
            };
            let expected = match dialog_document(items) {
                Json::Object(es) => es,
                _ => Seq::empty(),
            };
            assert(m =~= expected);
        }
        res
    }
}

/// Ingesting the same final text twice in a row records it once.
pub proof fn law_ingest_repeat_is_noop(s: DialogState, text: Seq<char>)
    requires
        dialog_wf(s),
    ensures
        spec_ingest(spec_ingest(s, text), text) == spec_ingest(s, text),
{
    crate::text::lemma_trim_idempotent(text);
}

/// Ingesting keeps the dialog context well formed.
pub proof fn law_ingest_keeps_wf(s: DialogState, text: Seq<char>)
    requires
        dialog_wf(s),
    ensures
        dialog_wf(spec_ingest(s, text)),
{
    crate::text::lemma_trim_idempotent(text);
    let r = spec_ingest(s, text);
    if r != s {
        let grown = seq![trim(text)] + s.items;
        assert forall|i: int| 0 <= i < r.items.len() - 1 implies #[trigger] r.items[i] != r.items[i
            + 1] by {
            if i > 0 {
                assert(r.items[i] == s.items[i - 1]);
                assert(r.items[i + 1] == s.items[i]);
            } else {
                assert(r.items[1] == s.items[0]);
            }
        }
        assert forall|i: int| 0 <= i < r.items.len() implies #[trigger] trim(r.items[i])
            == r.items[i] && !is_blank(r.items[i]) by {
            if i > 0 {
                assert(r.items[i] == s.items[i - 1]);
            }
        }
    }
}

/// The context sent is within `max_bytes`, unless it already holds only the
/// newest item.
pub proof fn law_context_fits_or_single(items: Seq<Seq<char>>, k: nat, max_bytes: nat)
    requires
        k >= 1,
    ensures
        context_for(items, k, max_bytes) matches Some(t) ==> (max_bytes == 0 || utf8_len(t)
            <= max_bytes || json_text(dialog_document(items.take(1))) == Some(t)),
    decreases k,
{
    if k > 1 {
        law_context_fits_or_single(items, (k - 1) as nat, max_bytes);
    }
}

/// The PTT key is the macOS `fn` / Globe key.
pub open spec fn spec_uses_fn(key: Seq<char>) -> bool {
    let n = normalized(key);
    n == "fn"@ || n == "function"@ || n == "globe"@
}

/// The PTT key is Caps Lock.
pub open spec fn spec_uses_caps_lock(key: Seq<char>) -> bool {
    let n = normalized(key);
    n == "capslock"@ || n == "caps-lock"@ || n == "caps_lock"@
}

/// The PTT key name designates the `fn` / Globe key.
pub fn ptt_key_uses_fn(key_name: &str) -> (r: bool)
    ensures
        r == spec_uses_fn(key_name@),
{
    let n = normalized_chars(key_name);
    chars_eq_str(&n, "fn") || chars_eq_str(&n, "function") || chars_eq_str(&n, "globe")
}

/// The PTT key name designates Caps Lock.
pub fn ptt_key_uses_caps_lock(key_name: &str) -> (r: bool)
    ensures
        r == spec_uses_caps_lock(key_name@),
{
    let n = normalized_chars(key_name);
    chars_eq_str(&n, "capslock") || chars_eq_str(&n, "caps-lock") || chars_eq_str(&n, "caps_lock")
}

/// What happens to an utterance when the key is held, given the window that
/// was in front at key-down.
pub enum TargetDecision {
    /// Record, recognize and paste into the window.
    Paste,
    /// No window was captured: record and recognize, but do not paste.
    RecognizeOnly,
    /// The window is not an allowed target: skip the utterance.
    Skip,
}

pub open spec fn spec_target_decision(process_name: Seq<char>, usable: bool) -> TargetDecision {
    if usable {
        TargetDecision::Paste
    } else if is_blank(process_name) {
        TargetDecision::RecognizeOnly
    } else {
        TargetDecision::Skip
    }
}

/// The decision for the window captured at key-down.
pub fn target_decision(process_name: &str, usable: bool) -> (res: TargetDecision)
    ensures
        res == spec_target_decision(process_name@, usable),
{
    if usable {
        TargetDecision::Paste
    } else if str_is_blank(process_name) {
        TargetDecision::RecognizeOnly
    } else {
        TargetDecision::Skip
    }
}

/// What the bridge does with a recognition result.
pub enum UtteranceOutcome {
    /// No final result came before the timeout: nothing is pasted, not even
    /// the latest interim text.
    NoFinalResult,
    /// The final text is empty: nothing is pasted.
    EmptyText,
    /// The text was recognized, but there is no usable window to paste into.
    RecognizedNotPasted(String),
    /// Paste the text into the target window.
    Paste(String),
}

pub open spec fn spec_outcome_text(o: UtteranceOutcome) -> Option<Seq<char>> {
    match o {
        UtteranceOutcome::RecognizedNotPasted(t) => Some(t@),
        UtteranceOutcome::Paste(t) => Some(t@),
        _ => None,
    }
}

/// The outcome of a recognition that completed.
pub open spec fn spec_decide_utterance(got_final: bool, final_text: Seq<char>, target_usable: bool) -> (
    bool,
    bool,
    Option<Seq<char>>,
) {
    // (pasted, recognized, text)
    if !got_final {
        (false, false, None)
    } else if is_blank(final_text) {
        (false, false, None)
    } else if !target_usable {
        (false, true, Some(trim(final_text)))
    } else {
        (true, true, Some(trim(final_text)))
    }
}

/// Decides what happens to a completed recognition: only a final, non-empty
/// text is recognized, and it is pasted only into a usable target.
pub fn decide_utterance(got_final: bool, final_text: &str, target_usable: bool) -> (res: UtteranceOutcome)
    ensures
        !got_final <==> res is NoFinalResult,
        got_final && is_blank(final_text@) <==> res is EmptyText,
        res is Paste <==> (got_final && !is_blank(final_text@) && target_usable),
        res is RecognizedNotPasted <==> (got_final && !is_blank(final_text@) && !target_usable),
        spec_outcome_text(res) matches Some(t) ==> t == trim(final_text@),
{
    if !got_final {
        return UtteranceOutcome::NoFinalResult;
    }
    if str_is_blank(final_text) {
        return UtteranceOutcome::EmptyText;
    }
    let text = trim_str(final_text);
    if !target_usable {
        UtteranceOutcome::RecognizedNotPasted(text)
    } else {
        UtteranceOutcome::Paste(text)
    }
}

/// The bridge never pastes a text that is not a final, non-empty result into a
/// window that is not a usable target.
pub proof fn law_paste_only_final_text(got_final: bool, final_text: Seq<char>, target_usable: bool)
    ensures
        spec_decide_utterance(got_final, final_text, target_usable).0 ==> got_final && !is_blank(
            final_text,
        ) && target_usable,
{
}

/// `n` in decimal, zero-padded to at least four digits (`{:04}`).
pub open spec fn padded4(n: nat) -> Seq<char> {
    let d = decimal(n);
    if d.len() >= 4 {
        d
    } else {
        Seq::new((4 - d.len()) as nat, |i: int| '0') + d
    }
}

/// The file name of the result of utterance `index`: `<stem>_<index:04><.ext>`,
/// with stem `bridge_result` and extension `.json` when the configured path
/// has none.
pub open spec fn result_file_name(stem: Option<Seq<char>>, extension: Option<Seq<char>>, index: nat) -> Seq<char> {
    let stem_text = match stem {
        Some(s) => s,
        None => "bridge_result"@,
    };
    let suffix = match extension {
        Some(e) => seq!['.'] + e,
        None => ".json"@,
    };
    stem_text + seq!['_'] + padded4(index) + suffix
}

/// The file name for the result of utterance `index`, from the stem and
/// extension of the configured output path.
pub fn result_json_file_name(stem: Option<&str>, extension: Option<&str>, index: u64) -> (res: String)
    ensures
        res@ == result_file_name(
            match stem {
                Some(s) => Some(s@),
                None => None,
            },
            match extension {
                Some(e) => Some(e@),
                None => None,
            },
            index as nat,
        ),
{
    let mut out = match stem {
        Some(s) => to_string(s),
        None => to_string("bridge_result"),
    };
    string_push(&mut out, '_');
    let digits = decimal_string(index);
    let ghost dv = decimal(index as nat);
    let count = chars_of(digits.as_str()).len();
    let mut pad: usize = count;
    let ghost start = out@;
    while pad < 4
        invariant
            count == dv.len(),
            count <= pad <= 4 || (count > 4 && pad == count),
            out@ == start + Seq::new((pad - count) as nat, |i: int| '0'),
        decreases 4 - pad,
    {
        string_push(&mut out, '0');
        pad = pad + 1;
        assert(out@ =~= start + Seq::new((pad - count) as nat, |i: int| '0'));
    }
    string_push_str(&mut out, digits.as_str());
    match extension {
        Some(e) => {
            string_push(&mut out, '.');
            string_push_str(&mut out, e);
        },
        None => string_push_str(&mut out, ".json"),
    }
    proof {
        let stem_text = match stem {
            Some(s) => s@,
            None => "bridge_result"@,
        };
        if dv.len() >= 4 {
            assert(Seq::new((pad - count) as nat, |i: int| '0') =~= Seq::<char>::empty());
        }
    }
    out
}

/// What the start-up banner reports of the bridge's settings.
pub struct BannerSettings {
    pub ptt_key_display: String,
    pub submit: bool,
    pub ptt_hold_ms: u64,
    pub ptt_short_press_passthrough: bool,
    /// The bridge runs on macOS, where Caps Lock has system behaviour.
    pub on_macos: bool,
    pub upload_sample_rate: u32,
    pub upload_channels: u16,
    pub upload_bits: u16,
    pub asr_auto_context: bool,
    pub asr_auto_context_max_items: usize,
    pub asr_auto_context_max_bytes: usize,
    pub require_title: String,
    pub forbid_host_window_target: bool,
}

/// `lines` with `line` added when `cond` holds.
pub open spec fn push_if(lines: Seq<Seq<char>>, cond: bool, line: Seq<char>) -> Seq<Seq<char>> {
    if cond {
        lines.push(line)
    } else {
        lines
    }
}

/// `names` joined with `,`, or `auto` when there are none.
pub open spec fn locales_text(names: Seq<Seq<char>>) -> Seq<char> {
    if names.len() == 0 {
        "auto"@
    } else {
        join(names, ","@)
    }
}

/// The lines about the PTT key and submission.
pub open spec fn banner_key_lines(s: BannerSettings, provider: Seq<char>) -> Seq<Seq<char>> {
    let fn_key = spec_uses_fn(s.ptt_key_display@);
    let taps: Seq<char> = if fn_key {
        "not replayed for `fn`"@
    } else if s.ptt_short_press_passthrough {
        "passed through normally"@
    } else {
        "ignored"@
    };
    let submit: Seq<char> = if s.submit {
        "Auto-submit is ON."@
    } else {
        "Text will be pasted only; press Enter yourself to send."@
    };
    let base = seq![
        "[BRIDGE] Rust voice bridge started."@,
        "[BRIDGE] ASR provider: "@ + provider,
        "[BRIDGE] The foreground window at initial key-down becomes the target input window."@,
        "[BRIDGE] Hold `"@ + s.ptt_key_display@ + "` to talk, release to finish one utterance. "@
            + submit,
        "[BRIDGE] PTT activates after holding for "@ + decimal(s.ptt_hold_ms as nat)
            + " ms. Short taps are "@ + taps + "."@,
    ];
    let with_fn = push_if(base, fn_key, fn_note());
    push_if(with_fn, spec_uses_caps_lock(s.ptt_key_display@) && s.on_macos, caps_note())
}

pub open spec fn fn_note() -> Seq<char> {
    "[BRIDGE] macOS note: using `fn` as the PTT key disables Fn/Globe shortcuts and `fn+...` key combinations while the bridge is running."@
}

pub open spec fn caps_note() -> Seq<char> {
    "[BRIDGE] macOS note: `capslock` is a system special key. While the bridge is running, it can still switch between non-Latin and Latin input sources, or trigger Caps Lock / continuous uppercase behavior."@
}

pub open spec fn upload_line(s: BannerSettings) -> Seq<char> {
    "[BRIDGE] upload format: "@ + decimal(s.upload_sample_rate as nat) + " Hz / "@ + decimal(
        s.upload_channels as nat,
    ) + " ch / "@ + decimal(s.upload_bits as nat)
        + "-bit PCM (local capture is converted only if needed)"@
}

/// The lines about the recognition provider: the dialog context for the
/// streaming service; model, locales, style and phrases for MAI.
pub open spec fn banner_provider_lines(s: BannerSettings, mai: Option<MaiOptions>) -> Seq<Seq<char>> {
    match mai {
        None => if s.asr_auto_context {
            seq![
                "[BRIDGE] contextual ASR: auto dialog context is ON (max_items="@ + decimal(
                    s.asr_auto_context_max_items as nat,
                ) + ", max_bytes="@ + decimal(s.asr_auto_context_max_bytes as nat) + ")."@,
                "[BRIDGE] contextual ASR: recent final texts will be sent as corpus.context for future utterances."@,
            ]
        } else {
            Seq::empty()
        },
        Some(o) => {
            let first = seq![
                "[BRIDGE] MAI: transport=rest, model="@ + o.model@ + ", locales="@ + locales_text(
                    views(o.locales@),
                ) + ", style="@ + o.style@ + "."@,
            ];
            let with_phrases = push_if(
                first,
                o.phrases@.len() > 0,
                "[BRIDGE] MAI: phrase list is enabled ("@ + decimal(o.phrases@.len()) + " phrases)."@,
            );
            push_if(
                with_phrases,
                s.asr_auto_context,
                "[BRIDGE] contextual ASR: auto dialog context is ignored by MAI; use --mai-phrase for entity bias."@,
            )
        },
    }
}

pub open spec fn static_context_note() -> Seq<char> {
    "[BRIDGE] contextual ASR: note: static corpus.context will be ignored while auto dialog context is enabled."@
}

/// The lines about the corpus hints of the streaming service: which are set,
/// and the size of the static context.
pub open spec fn corpus_banner_lines(s: BannerSettings, c: CorpusOptions) -> Seq<Seq<char>> {
    if !(hint_set(c.boosting_table_name) || hint_set(c.boosting_table_id) || hint_set(
        c.correct_table_name,
    ) || hint_set(c.correct_table_id) || hint_set(c.context)) {
        Seq::empty()
    } else {
        let a = seq!["[BRIDGE] contextual ASR: corpus hints are enabled."@];
        let b = push_if(
            a,
            hint_set(c.boosting_table_name),
            "[BRIDGE] contextual ASR: boosting_table_name is set."@,
        );
        let d = push_if(
            b,
            hint_set(c.boosting_table_id),
            "[BRIDGE] contextual ASR: boosting_table_id is set."@,
        );
        let e = push_if(
            d,
            hint_set(c.correct_table_name),
            "[BRIDGE] contextual ASR: correct_table_name is set."@,
        );
        let f = push_if(
            e,
            hint_set(c.correct_table_id),
            "[BRIDGE] contextual ASR: correct_table_id is set."@,
        );
        let g = push_if(f, hint_set(c.context) && s.asr_auto_context, static_context_note());
        push_if(
            g,
            hint_set(c.context),
            "[BRIDGE] contextual ASR: corpus.context is set ("@ + decimal(
                utf8_len(c.context.unwrap()@),
            ) + " bytes)."@,
        )
    }
}

/// The start-up banner, line by line.
pub open spec fn spec_banner(s: BannerSettings, corpus: CorpusOptions, mai: Option<MaiOptions>) -> Seq<Seq<char>> {
    let provider: Seq<char> = if mai is Some {
        "mai"@
    } else {
        "doubao"@
    };
    let provider_lines = match mai {
        None => banner_provider_lines(s, mai) + corpus_banner_lines(s, corpus),
        Some(_) => banner_provider_lines(s, mai),
    };
    let head = banner_key_lines(s, provider).push(upload_line(s)) + provider_lines;
    let with_title = push_if(
        head,
        !is_blank(s.require_title@),
        "[BRIDGE] Window title must contain: "@ + trim(s.require_title@),
    );
    let with_host = push_if(
        with_title,
        s.forbid_host_window_target,
        "[BRIDGE] Host window targeting is disabled for this run."@,
    );
    with_host.push("[BRIDGE] Press Ctrl-C here to exit."@)
}

fn line2(a: &str, b: &str) -> (res: String)
    ensures
        res@ == a@ + b@,
{
    let mut out = to_string(a);
    string_push_str(&mut out, b);
    out
}

fn line3(a: &str, b: &str, c: &str) -> (res: String)
    ensures
        res@ == a@ + b@ + c@,
{
    let mut out = line2(a, b);
    string_push_str(&mut out, c);
    out
}

/// `v` joined with `sep` between consecutive strings.
fn join_strings(v: &Vec<String>, sep: &str) -> (res: String)
    ensures
        res@ == join(views(v@), sep@),
{
    let mut out = String::new();
    let mut i: usize = 0;
    while i < v.len()
        invariant
            i <= v@.len(),
            out@ == join(views(v@).take(i as int), sep@),
        decreases v.len() - i,
    {
        proof {
            assert(views(v@).take(i + 1).drop_last() =~= views(v@).take(i as int));
            assert(views(v@).take(i + 1).last() == v@[i as int]@);
        }
        if i > 0 {
            string_push_str(&mut out, sep);
        }
        string_push_str(&mut out, v[i].as_str());
        i = i + 1;
        proof {
            if i == 1 {
                assert(views(v@).take(1) =~= seq![v@[0]@]);
            }
        }
    }
    assert(views(v@).take(i as int) =~= views(v@));
    out
}

fn banner_key_part(s: &BannerSettings, provider: &str) -> (res: Vec<String>)
    ensures
        views(res@) == banner_key_lines(*s, provider@),
{
    let fn_key = ptt_key_uses_fn(s.ptt_key_display.as_str());
    let mut lines: Vec<String> = Vec::new();
    lines.push(to_string("[BRIDGE] Rust voice bridge started."));
    lines.push(line2("[BRIDGE] ASR provider: ", provider));
    lines.push(
        to_string(
            "[BRIDGE] The foreground window at initial key-down becomes the target input window.",
        ),
    );
    let submit = if s.submit {
        "Auto-submit is ON."
    } else {
        "Text will be pasted only; press Enter yourself to send."
    };
    let mut hold = line3(
        "[BRIDGE] Hold `",
        s.ptt_key_display.as_str(),
        "` to talk, release to finish one utterance. ",
    );
    string_push_str(&mut hold, submit);
    lines.push(hold);
    let taps = if fn_key {
        "not replayed for `fn`"
    } else if s.ptt_short_press_passthrough {
        "passed through normally"
    } else {
        "ignored"
    };
    let hold_ms = decimal_string(s.ptt_hold_ms);
    let mut activation = line3(
        "[BRIDGE] PTT activates after holding for ",
        hold_ms.as_str(),
        " ms. Short taps are ",
    );
    string_push_str(&mut activation, taps);
    string_push_str(&mut activation, ".");
    lines.push(activation);
    if fn_key {
        lines.push(
            to_string(
                "[BRIDGE] macOS note: using `fn` as the PTT key disables Fn/Globe shortcuts and `fn+...` key combinations while the bridge is running.",
            ),
        );
    }
    if ptt_key_uses_caps_lock(s.ptt_key_display.as_str()) && s.on_macos {
        lines.push(
            to_string(
                "[BRIDGE] macOS note: `capslock` is a system special key. While the bridge is running, it can still switch between non-Latin and Latin input sources, or trigger Caps Lock / continuous uppercase behavior.",
            ),
        );
    }
    assert(views(lines@) =~= banner_key_lines(*s, provider@));
    lines
}

fn upload_text(s: &BannerSettings) -> (res: String)
    ensures
        res@ == upload_line(*s),
{
    let rate = decimal_string(s.upload_sample_rate as u64);
    let channels = decimal_string(s.upload_channels as u64);
    let bits = decimal_string(s.upload_bits as u64);
    let mut upload = line3("[BRIDGE] upload format: ", rate.as_str(), " Hz / ");
    string_push_str(&mut upload, channels.as_str());
    string_push_str(&mut upload, " ch / ");
    string_push_str(&mut upload, bits.as_str());
    string_push_str(&mut upload, "-bit PCM (local capture is converted only if needed)");
    upload
}

fn banner_provider_part(s: &BannerSettings, mai: Option<&MaiOptions>) -> (res: Vec<String>)
    ensures
        views(res@) == banner_provider_lines(
            *s,
            match mai {
                Some(o) => Some(*o),
                None => None,
            },
        ),
{
    let mut lines: Vec<String> = Vec::new();
    match mai {
        None => {
            if s.asr_auto_context {
                let items = decimal_string(s.asr_auto_context_max_items as u64);
                let bytes = decimal_string(s.asr_auto_context_max_bytes as u64);
                let mut on = line3(
                    "[BRIDGE] contextual ASR: auto dialog context is ON (max_items=",
                    items.as_str(),
                    ", max_bytes=",
                );
                string_push_str(&mut on, bytes.as_str());
                string_push_str(&mut on, ").");
                lines.push(on);
                lines.push(
                    to_string(
                        "[BRIDGE] contextual ASR: recent final texts will be sent as corpus.context for future utterances.",
                    ),
                );
            }
            assert(views(lines@) =~= banner_provider_lines(*s, None));
        },
        Some(o) => {
            let locales = if o.locales.len() == 0 {
                to_string("auto")
            } else {
                join_strings(&o.locales, ",")
            };
            let mut first = line3(
                "[BRIDGE] MAI: transport=rest, model=",
                o.model.as_str(),
                ", locales=",
            );
            string_push_str(&mut first, locales.as_str());
            string_push_str(&mut first, ", style=");
            string_push_str(&mut first, o.style.as_str());
            string_push_str(&mut first, ".");
            lines.push(first);
            if o.phrases.len() > 0 {
                let count = decimal_string(o.phrases.len() as u64);
                lines.push(
                    line3("[BRIDGE] MAI: phrase list is enabled (", count.as_str(), " phrases)."),
                );
            }
            if s.asr_auto_context {
                lines.push(
                    to_string(
                        "[BRIDGE] contextual ASR: auto dialog context is ignored by MAI; use --mai-phrase for entity bias.",
                    ),
                );
            }
            assert(views(lines@) =~= banner_provider_lines(*s, Some(*o)));
        },
    }
    lines
}

fn hint_is_set(v: &Option<String>) -> (r: bool)
    ensures
        r == hint_set(*v),
{
    match v {
        Some(t) => !str_is_blank(t.as_str()),
        None => false,
    }
}

fn corpus_banner_part(s: &BannerSettings, c: &CorpusOptions) -> (res: Vec<String>)
    ensures
        views(res@) == corpus_banner_lines(*s, *c),
{
    let mut lines: Vec<String> = Vec::new();
    let context_set = hint_is_set(&c.context);
    if !(hint_is_set(&c.boosting_table_name) || hint_is_set(&c.boosting_table_id) || hint_is_set(
        &c.correct_table_name,
    ) || hint_is_set(&c.correct_table_id) || context_set) {
        assert(views(lines@) =~= corpus_banner_lines(*s, *c));
        return lines;
    }
    lines.push(to_string("[BRIDGE] contextual ASR: corpus hints are enabled."));
    if hint_is_set(&c.boosting_table_name) {
        lines.push(to_string("[BRIDGE] contextual ASR: boosting_table_name is set."));
    }
    if hint_is_set(&c.boosting_table_id) {
        lines.push(to_string("[BRIDGE] contextual ASR: boosting_table_id is set."));
    }
    if hint_is_set(&c.correct_table_name) {
        lines.push(to_string("[BRIDGE] contextual ASR: correct_table_name is set."));
    }
    if hint_is_set(&c.correct_table_id) {
        lines.push(to_string("[BRIDGE] contextual ASR: correct_table_id is set."));
    }
    match &c.context {
        Some(context) => {
            if context_set {
                if s.asr_auto_context {
                    lines.push(
                        to_string(
                            "[BRIDGE] contextual ASR: note: static corpus.context will be ignored while auto dialog context is enabled.",
                        ),
                    );
                }
                let size = decimal_string(context.as_str().len() as u64);
                lines.push(line3("[BRIDGE] contextual ASR: corpus.context is set (", size.as_str(), " bytes)."));
            }
        },
        None => {},
    }
    assert(views(lines@) =~= corpus_banner_lines(*s, *c));
    lines
}

/// The start-up banner of the bridge for its settings, the corpus hints of
/// the streaming service and the provider (`None` for the streaming service,
/// else the MAI options).
pub fn startup_banner_lines(s: &BannerSettings, corpus: &CorpusOptions, mai: Option<&MaiOptions>) -> (res: Vec<String>)
    ensures
        views(res@) == spec_banner(
            *s,
            *corpus,
            match mai {
                Some(o) => Some(*o),
                None => None,
            },
        ),
{
    let ghost m = match mai {
        Some(o) => Some(*o),
        None => None,
    };
    let provider = match mai {
        Some(_) => "mai",
        None => "doubao",
    };
    let mut lines = banner_key_part(s, provider);
    lines.push(upload_text(s));
    let mut provider_lines = banner_provider_part(s, mai);
    let ghost before_append = views(lines@);
    let ghost added = views(provider_lines@);
    lines.append(&mut provider_lines);
    assert(views(lines@) =~= before_append + added);
    match mai {
        None => {
            let mut corpus_lines = corpus_banner_part(s, corpus);
            let ghost before_corpus = views(lines@);
            let ghost corpus_added = views(corpus_lines@);
            lines.append(&mut corpus_lines);
            assert(views(lines@) =~= before_corpus + corpus_added);
            assert(before_append + added + corpus_added =~= before_append + (added + corpus_added));
        },
        Some(_) => {},
    }
    if !str_is_blank(s.require_title.as_str()) {
        let title = trim_str(s.require_title.as_str());
        lines.push(line2("[BRIDGE] Window title must contain: ", title.as_str()));
    }
    if s.forbid_host_window_target {
        lines.push(to_string("[BRIDGE] Host window targeting is disabled for this run."));
    }
    lines.push(to_string("[BRIDGE] Press Ctrl-C here to exit."));
    assert(views(lines@) =~= spec_banner(*s, *corpus, m));
    lines
}

/// The line naming the target window: process name and title, `<no title>`
/// when the title is empty.
pub open spec fn target_window_line(w: WindowInfo) -> Seq<char> {
    "[BRIDGE] target window: "@ + w.process_name@ + " | "@ + if w.title@.len() == 0 {
        "<no title>"@
    } else {
        w.title@
    }
}

/// The line that reports the target window of an utterance.
pub fn target_window_text(window: &WindowInfo) -> (res: String)
    ensures
        res@ == target_window_line(*window),
{
    let mut out = line3("[BRIDGE] target window: ", window.process_name.as_str(), " | ");
    if window.title.as_str().is_empty() {
        string_push_str(&mut out, "<no title>");
    } else {
        string_push_str(&mut out, window.title.as_str());
    }
    out
}

} // verus!
