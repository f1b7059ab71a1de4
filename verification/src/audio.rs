//! Microphone capture rules: the choice of input device and stream format, the
//! size of upload chunks, and the buffer that turns 16-bit samples into chunks
//! and closes the capture with a last chunk or an error.
use vstd::prelude::*;

use crate::text::{
    ascii_lower, chars_contains, chars_of, contains_seq, is_blank, lower_chars, trim, trim_bounds,
};

verus! {

/// An input device as listed to the user.
pub struct InputDeviceInfo {
    pub index: usize,
    pub name: String,
    pub default_sample_rate: u32,
    pub channels: u16,
    pub sample_format: String,
    pub is_default_input: bool,
}

/// What the capture hands to the session.
pub enum CaptureEvent {
    Chunk { data: Vec<u8>, is_last: bool },
    Error(String),
}

/// The sample formats an input stream may deliver.
pub enum SampleFormatKind {
    I8,
    I16,
    I24,
    I32,
    I64,
    U8,
    U16,
    U32,
    U64,
    F32,
    F64,
    Other,
}

/// Preference among stream formats, lower first: `i16`, then `f32`, then `u16`,
/// then the rest.
pub open spec fn spec_format_score(format: SampleFormatKind) -> u8 {
    match format {
        SampleFormatKind::I16 => 0,
        SampleFormatKind::F32 => 1,
        SampleFormatKind::U16 => 2,
        _ => 10,
    }
}

/// The preference score of a stream format.
pub fn format_preference_score(format: &SampleFormatKind) -> (r: u8)
    ensures
        r == spec_format_score(*format),
{
    match format {
        SampleFormatKind::I16 => 0,
        SampleFormatKind::F32 => 1,
        SampleFormatKind::U16 => 2,
        _ => 10,
    }
}

/// A stream configuration range offered by a device.
pub struct StreamConfigRange {
    pub channels: u16,
    pub min_sample_rate: u32,
    pub max_sample_rate: u32,
    pub format: SampleFormatKind,
}

/// The range can deliver the target format directly.
pub open spec fn range_fits(c: StreamConfigRange, target_rate: u32, target_channels: u16) -> bool {
    c.channels == target_channels && c.min_sample_rate <= target_rate && target_rate
        <= c.max_sample_rate
}

/// Candidate `i` is the one a stable sort by preference score puts first
/// among the ranges that fit the target.
pub open spec fn is_best_candidate(ranges: Seq<StreamConfigRange>, i: int, target_rate: u32, target_channels: u16) -> bool {
    &&& 0 <= i < ranges.len()
    &&& range_fits(ranges[i], target_rate, target_channels)
    &&& forall|j: int|
        0 <= j < ranges.len() && range_fits(ranges[j], target_rate, target_channels) ==> (
        spec_format_score(ranges[i].format) < spec_format_score(#[trigger] ranges[j].format) || (
        spec_format_score(ranges[i].format) == spec_format_score(ranges[j].format) && i <= j))
}

/// The index of the stream range to open at the target format, if any fits.
pub fn select_capture_candidate(ranges: &Vec<StreamConfigRange>, target_rate: u32, target_channels: u16) -> (res: Option<usize>)
    ensures
        match res {
            Some(i) => is_best_candidate(ranges@, i as int, target_rate, target_channels),
            None => forall|j: int|
                0 <= j < ranges@.len() ==> !range_fits(#[trigger] ranges@[j], target_rate, target_channels),
        },
{
    let mut best: Option<usize> = None;
    let mut best_score: u8 = 0;
    let mut i: usize = 0;
    while i < ranges.len()
        invariant
            i <= ranges@.len(),
            match best {
                Some(b) => {
                    &&& b < i
                    &&& range_fits(ranges@[b as int], target_rate, target_channels)
                    &&& best_score == spec_format_score(ranges@[b as int].format)
                    &&& forall|j: int|
                        0 <= j < i && range_fits(ranges@[j], target_rate, target_channels) ==> (
                        best_score < spec_format_score(#[trigger] ranges@[j].format) || (best_score
                            == spec_format_score(ranges@[j].format) && b <= j))
                },
                None => forall|j: int|
                    0 <= j < i ==> !range_fits(#[trigger] ranges@[j], target_rate, target_channels),
            },
        decreases ranges.len() - i,
    {
        let c = &ranges[i];
        if c.channels == target_channels && c.min_sample_rate <= target_rate && target_rate
            <= c.max_sample_rate {
            let score = format_preference_score(&c.format);
            match best {
                Some(_) => {
                    if score < best_score {
                        best = Some(i);
                        best_score = score;
                    }
                },
                None => {
                    best = Some(i);
                    best_score = score;
                },
            }
        }
        i = i + 1;
    }
    best
}

/// Why the capture cannot produce the requested upload format.
pub enum CaptureTargetError {
    /// The capture converts to mono only.
    NotMono,
    ZeroSampleRate,
}

/// The upload format a capture can produce: mono at a non-zero rate.
pub fn check_capture_target(target_sample_rate: u32, target_channels: u16) -> (res: Result<(), CaptureTargetError>)
    ensures
        target_channels != 1 ==> res == Err::<(), CaptureTargetError>(CaptureTargetError::NotMono),
        target_channels == 1 && target_sample_rate == 0 ==> res == Err::<(), CaptureTargetError>(
            CaptureTargetError::ZeroSampleRate,
        ),
        target_channels == 1 && target_sample_rate > 0 ==> res is Ok,
{
    if target_channels != 1 {
        return Err(CaptureTargetError::NotMono);
    }
    if target_sample_rate == 0 {
        return Err(CaptureTargetError::ZeroSampleRate);
    }
    Ok(())
}

/// The bytes of one 16-bit capture chunk: `chunk_bytes` when set; else
/// `chunk_ms` of audio, at least one sample frame.
pub open spec fn spec_capture_chunk_bytes(chunk_bytes: nat, chunk_ms: nat, sample_rate: nat, channels: nat) -> nat {
    if chunk_bytes > 0 {
        chunk_bytes
    } else {
        let inferred = sample_rate * channels * 2 * chunk_ms / 1000;
        if inferred >= channels * 2 {
            inferred
        } else {
            channels * 2
        }
    }
}

/// The size in bytes of the chunks the microphone capture emits.
pub fn infer_capture_chunk_bytes(chunk_bytes: usize, chunk_ms: u32, sample_rate: u32, channels: u16) -> (res: usize)
    requires
        chunk_bytes == 0 ==> sample_rate * channels <= usize::MAX,
        chunk_bytes == 0 ==> sample_rate * channels * 2 <= usize::MAX,
        chunk_bytes == 0 ==> sample_rate * channels * 2 * chunk_ms <= usize::MAX,
    ensures
        res == spec_capture_chunk_bytes(chunk_bytes as nat, chunk_ms as nat, sample_rate as nat, channels as nat),
{
    if chunk_bytes > 0 {
        return chunk_bytes;
    }
    let bytes_per_second = sample_rate as usize * channels as usize * 2;
    let inferred = (bytes_per_second * chunk_ms as usize) / 1000;
    let frame = channels as usize * 2;
    if inferred >= frame {
        inferred
    } else {
        frame
    }
}

/// The little-endian bytes of a 16-bit sample.
pub open spec fn sample_bytes(s: i16) -> Seq<u8> {
    seq![((s as u16) % 256) as u8, ((s as u16) / 256) as u8]
}

/// The little-endian bytes of a run of samples.
pub open spec fn samples_bytes(samples: Seq<i16>) -> Seq<u8>
    decreases samples.len(),
{
    if samples.len() == 0 {
        Seq::empty()
    } else {
        samples_bytes(samples.drop_last()) + sample_bytes(samples.last())
    }
}

/// Converted samples waiting to fill a chunk.
pub struct PendingPcm {
    pub pending_bytes: Vec<u8>,
    pub received_any: bool,
}

/// The message sent when the capture ends without any audio.
pub const NO_AUDIO_MESSAGE: &'static str = "No microphone audio captured. Check device permissions and settings.";

impl PendingPcm {
    pub fn new() -> (res: Self)
        ensures
            res.pending_bytes@ == Seq::<u8>::empty(),
            !res.received_any,
    {
        PendingPcm { pending_bytes: Vec::new(), received_any: false }
    }

    /// Appends converted samples as little-endian bytes.
    pub fn push_samples(&mut self, samples: &[i16])
        ensures
            final(self).pending_bytes@ == old(self).pending_bytes@ + samples_bytes(samples@),
            final(self).received_any == (old(self).received_any || samples@.len() > 0),
    {
        if samples.len() > 0 {
            self.received_any = true;
        }
        let ghost start = self.pending_bytes@;
        let mut i: usize = 0;
        while i < samples.len()
            invariant
                i <= samples@.len(),
                self.received_any == (old(self).received_any || samples@.len() > 0),
                self.pending_bytes@ == start + samples_bytes(samples@.take(i as int)),
            decreases samples.len() - i,
        {
            let v = #[verifier::truncate] (samples[i] as u16);
            self.pending_bytes.push((v % 256) as u8);
            self.pending_bytes.push((v / 256) as u8);
            proof {
                assert(samples@.take(i + 1).drop_last() =~= samples@.take(i as int));
                assert(samples@.take(i + 1).last() == samples@[i as int]);
            }
            i = i + 1;
            assert(self.pending_bytes@ =~= start + samples_bytes(samples@.take(i as int)));
        }
        assert(samples@.take(i as int) =~= samples@);
    }

    /// Takes every full chunk of `chunk_size` bytes off the front of the buffer,
    /// in order.
    pub fn take_full_chunks(&mut self, chunk_size: usize) -> (res: Vec<Vec<u8>>)
        requires
            chunk_size > 0,
        ensures
            final(self).received_any == old(self).received_any,
            final(self).pending_bytes@.len() < chunk_size,
            forall|i: int| 0 <= i < res@.len() ==> (#[trigger] res@[i])@.len() == chunk_size,
            crate::asr::flatten(crate::asr::chunk_views(res@)) + final(self).pending_bytes@ == old(
                self,
            ).pending_bytes@,
    {
        let mut chunks: Vec<Vec<u8>> = Vec::new();
        let ghost initial = self.pending_bytes@;
        let mut start: usize = 0;
        let n = self.pending_bytes.len();
        while n - start >= chunk_size
            invariant
                chunk_size > 0,
                n == self.pending_bytes@.len() == initial.len(),
                self.pending_bytes@ == initial,
                start <= n,
                forall|i: int| 0 <= i < chunks@.len() ==> (#[trigger] chunks@[i])@.len() == chunk_size,
                crate::asr::flatten(crate::asr::chunk_views(chunks@)) == initial.take(start as int),
            decreases n - start,
        {
            let end = start + chunk_size;
            let mut chunk: Vec<u8> = Vec::new();
            let mut k = start;
            while k < end
                invariant
                    start <= k <= end <= n == self.pending_bytes@.len(),
                    chunk@ == self.pending_bytes@.subrange(start as int, k as int),
                decreases end - k,
            {
                chunk.push(self.pending_bytes[k]);
                k = k + 1;
                assert(chunk@ =~= self.pending_bytes@.subrange(start as int, k as int));
            }
            let ghost before = crate::asr::chunk_views(chunks@);
            chunks.push(chunk);
            proof {
                let after = crate::asr::chunk_views(chunks@);
                assert(after =~= before.push(initial.subrange(start as int, end as int)));
                lemma_flatten_push(before, initial.subrange(start as int, end as int));
                assert(initial.take(start as int) + initial.subrange(start as int, end as int)
                    =~= initial.take(end as int));
            }
            start = end;
        }
        let mut rest: Vec<u8> = Vec::new();
        let mut k = start;
        while k < n
            invariant
                start <= k <= n == self.pending_bytes@.len(),
                rest@ == self.pending_bytes@.subrange(start as int, k as int),
            decreases n - k,
        {
            rest.push(self.pending_bytes[k]);
            k = k + 1;
            assert(rest@ =~= self.pending_bytes@.subrange(start as int, k as int));
        }
        self.pending_bytes = rest;
        proof {
            assert(initial.take(start as int) + initial.subrange(start as int, n as int) =~= initial);
        }
        chunks
    }

    /// The last event of a capture: the pending bytes as the last chunk; else,
    /// when audio was received, a silent sample frame as the last chunk; else
    /// an error.
    pub fn finalize(&mut self, channels: u16) -> (res: CaptureEvent)
        ensures
            old(self).pending_bytes@.len() > 0 ==> (res matches CaptureEvent::Chunk { data, is_last }
                && is_last && data@ == old(self).pending_bytes@),
            old(self).pending_bytes@.len() == 0 && old(self).received_any ==> (res matches CaptureEvent::Chunk { data, is_last }
                && is_last && data@ == Seq::new((channels * 2) as nat, |i: int| 0u8)),
            old(self).pending_bytes@.len() == 0 && !old(self).received_any ==> (res matches CaptureEvent::Error(m)
                && m@ == NO_AUDIO_MESSAGE@),
            final(self).pending_bytes@ == Seq::<u8>::empty(),
    {
        if self.pending_bytes.len() > 0 {
            let mut data: Vec<u8> = Vec::new();
            std::mem::swap(&mut data, &mut self.pending_bytes);
            return CaptureEvent::Chunk { data, is_last: true };
        }
        if self.received_any {
            let count = channels as usize * 2;
            let mut data: Vec<u8> = Vec::new();
            let mut i: usize = 0;
            while i < count
                invariant
                    i <= count,
                    count == channels * 2,
                    data@ == Seq::new(i as nat, |j: int| 0u8),
                decreases count - i,
            {
                data.push(0u8);
                i = i + 1;
                assert(data@ =~= Seq::new(i as nat, |j: int| 0u8));
            }
            return CaptureEvent::Chunk { data, is_last: true };
        }
        CaptureEvent::Error(crate::text::to_string(NO_AUDIO_MESSAGE))
    }
}

proof fn lemma_flatten_push(chunks: Seq<Seq<u8>>, c: Seq<u8>)
    ensures
        crate::asr::flatten(chunks.push(c)) == crate::asr::flatten(chunks) + c,
    decreases chunks.len(),
{
    if chunks.len() == 0 {
        assert(chunks.push(c).drop_first() =~= Seq::<Seq<u8>>::empty());
        assert(chunks.push(c)[0] == c);
        assert(c + Seq::<u8>::empty() =~= c);
        assert(Seq::<u8>::empty() + c =~= c);
        assert(crate::asr::flatten(chunks) == Seq::<u8>::empty());
        assert(crate::asr::flatten(chunks.push(c).drop_first()) == Seq::<u8>::empty());
        assert(crate::asr::flatten(chunks.push(c)) == c + Seq::<u8>::empty());
    } else {
        assert(chunks.push(c).drop_first() =~= chunks.drop_first().push(c));
        assert(chunks.push(c)[0] == chunks[0]);
        lemma_flatten_push(chunks.drop_first(), c);
        assert(chunks[0] + (crate::asr::flatten(chunks.drop_first()) + c) =~= (chunks[0]
            + crate::asr::flatten(chunks.drop_first())) + c);
    }
}

/// The value of a run of ASCII digits.
pub open spec fn digits_value(s: Seq<char>) -> nat
    decreases s.len(),
{
    if s.len() == 0 {
        0
    } else {
        (digits_value(s.drop_last()) * 10 + (s.last() as int - '0' as int)) as nat
    }
}

pub open spec fn is_digit(c: char) -> bool {
    '0' <= c && c <= '9'
}

/// What `str::parse::<usize>` gives: an optional `+` followed by at least one
/// ASCII digit, with a value that fits in `usize`.
pub open spec fn spec_parse_usize(s: Seq<char>) -> Option<nat> {
    let digits = unsigned_digits(s);
    if digits.len() > 0 && all_digits(digits) && digits_value(digits) <= usize::MAX {
        Some(digits_value(digits))
    } else {
        None
    }
}

/// `s` without a leading `+`.
pub open spec fn unsigned_digits(s: Seq<char>) -> Seq<char> {
    if s.len() > 0 && s[0] == '+' {
        s.drop_first()
    } else {
        s
    }
}

/// Every character of `s` is an ASCII digit.
pub open spec fn all_digits(s: Seq<char>) -> bool {
    forall|i: int| 0 <= i < s.len() ==> #[trigger] is_digit(s[i])
}

proof fn lemma_digits_value_monotone(s: Seq<char>, i: int)
    requires
        0 <= i <= s.len(),
        forall|k: int| 0 <= k < s.len() ==> #[trigger] is_digit(s[k]),
    ensures
        digits_value(s.take(i)) <= digits_value(s),
    decreases s.len() - i,
{
    if i < s.len() {
        lemma_digits_value_monotone(s, i + 1);
        assert(s.take(i + 1).drop_last() =~= s.take(i));
        assert(s.take(i + 1).last() == s[i]);
        assert(is_digit(s[i]));
        let x = digits_value(s.take(i));
        let d = s[i] as int - '0' as int;
        assert(digits_value(s.take(i + 1)) == x * 10 + d);
        assert(x <= x * 10 + d) by (nonlinear_arith)
            requires
                d >= 0,
        ;
    } else {
        assert(s.take(i) =~= s);
    }
}

/// Reads a device index from the selector text.
pub fn parse_usize(s: &Vec<char>) -> (res: Option<usize>)
    ensures
        match spec_parse_usize(s@) {
            Some(v) => res == Some(v as usize),
            None => res is None,
        },
{
    let start: usize = if s.len() > 0 && s[0] == '+' {
        1
    } else {
        0
    };
    let ghost digits = s@.subrange(start as int, s@.len() as int);
    proof {
        if start == 1 {
            assert(digits =~= s@.drop_first());
        } else {
            assert(digits =~= s@);
        }
    }
    if start >= s.len() {
        return None;
    }
    let mut value: usize = 0;
    let mut i = start;
    while i < s.len()
        invariant
            start <= i <= s@.len(),
            start < s@.len(),
            digits == s@.subrange(start as int, s@.len() as int),
            digits == unsigned_digits(s@),
            forall|k: int| start <= k < i ==> #[trigger] is_digit(s@[k]),
            value == digits_value(digits.take(i - start)),
        decreases s.len() - i,
    {
        let c = s[i];
        if !('0' <= c && c <= '9') {
            proof {
                assert(digits[i - start] == s@[i as int]);
                assert(!is_digit(digits[i - start]));
                assert(!all_digits(digits));
            }
            return None;
        }
        let d: usize = (c as u32 - '0' as u32) as usize;
        proof {
            assert(digits.take(i + 1 - start).drop_last() =~= digits.take(i - start));
            assert(digits.take(i + 1 - start).last() == c);
            assert(digits_value(digits.take(i + 1 - start)) == value * 10 + d);
        }
        let next = match value.checked_mul(10) {
            Some(v) => v.checked_add(d),
            None => None,
        };
        match next {
            Some(v) => {
                value = v;
            },
            None => {
                proof {
                    assert(digits_value(digits.take(i + 1 - start)) > usize::MAX);
                    if all_digits(digits) {
                        lemma_digits_value_monotone(digits, i + 1 - start);
                    }
                }
                return None;
            },
        }
        i = i + 1;
    }
    proof {
        assert(digits.take(i - start) =~= digits);
        assert forall|k: int| 0 <= k < digits.len() implies #[trigger] is_digit(digits[k]) by {
            assert(digits[k] == s@[start + k]);
        }
    }
    Some(value)
}

/// Which input device a selector designates.
pub enum DeviceChoice {
    /// The selector is blank: the system default input.
    Default,
    /// The device at this position of the list.
    Device(usize),
    /// The selector is a number past the end of the list.
    IndexOutOfRange(usize),
    /// No device name contains the selector.
    NoMatch,
}

/// The lower-cased name holds the lower-cased selector.
pub open spec fn name_matches(name: Seq<char>, needle: Seq<char>) -> bool {
    contains_seq(ascii_lower(name), needle)
}

/// `i` is the first position whose name matches.
pub open spec fn is_first_match(names: Seq<Seq<char>>, needle: Seq<char>, i: int) -> bool {
    &&& 0 <= i < names.len()
    &&& name_matches(names[i], needle)
    &&& forall|j: int| 0 <= j < i ==> !name_matches(#[trigger] names[j], needle)
}

/// The device a selector designates: blank means the default input; a number
/// is a position in the list; any other text picks the first device whose
/// name contains it, ignoring ASCII case.
pub open spec fn spec_device_choice(selector: Seq<char>, names: Seq<Seq<char>>) -> DeviceChoice {
    let s = trim(selector);
    if s.len() == 0 {
        DeviceChoice::Default
    } else {
        match spec_parse_usize(s) {
            Some(v) => if v < names.len() {
                DeviceChoice::Device(v as usize)
            } else {
                DeviceChoice::IndexOutOfRange(v as usize)
            },
            None => if exists|i: int| #[trigger] is_first_match(names, ascii_lower(s), i) {
                DeviceChoice::Device(
                    (choose|i: int| #[trigger] is_first_match(names, ascii_lower(s), i)) as usize,
                )
            } else {
                DeviceChoice::NoMatch
            },
        }
    }
}

/// The device chosen by a selector among the listed device names.
pub fn select_input_device(selector: &str, names: &Vec<String>) -> (res: DeviceChoice)
    ensures
        match spec_device_choice(selector@, Seq::new(names@.len(), |i: int| names@[i]@)) {
            DeviceChoice::Device(i) => res == DeviceChoice::Device(i) && (i as int) < names@.len(),
            other => res == other,
        },
{
    let ghost name_views = Seq::new(names@.len(), |i: int| names@[i]@);
    let chars = chars_of(selector);
    let (a, b) = trim_bounds(&chars);
    if a == b {
        return DeviceChoice::Default;
    }
    let mut s: Vec<char> = Vec::new();
    let mut k = a;
    while k < b
        invariant
            a <= k <= b <= chars.len(),
            s@ == chars@.subrange(a as int, k as int),
        decreases b - k,
    {
        s.push(chars[k]);
        k = k + 1;
        assert(s@ =~= chars@.subrange(a as int, k as int));
    }
    match parse_usize(&s) {
        Some(v) => {
            if v < names.len() {
                return DeviceChoice::Device(v);
            } else {
                return DeviceChoice::IndexOutOfRange(v);
            }
        },
        None => {},
    }
    let needle = lower_chars(&s);
    let mut i: usize = 0;
    while i < names.len()
        invariant
            i <= names@.len(),
            name_views == Seq::new(names@.len(), |j: int| names@[j]@),
            s@ == trim(selector@),
            s@.len() > 0,
            spec_parse_usize(s@) is None,
            needle@ == ascii_lower(s@),
            forall|j: int| 0 <= j < i ==> !name_matches(#[trigger] name_views[j], needle@),
        decreases names.len() - i,
    {
        let hay = lower_chars(&chars_of(names[i].as_str()));
        if chars_contains(&hay, &needle) {
            proof {
                assert(name_matches(name_views[i as int], ascii_lower(s@)));
                assert(is_first_match(name_views, ascii_lower(s@), i as int));
                let c = choose|m: int| #[trigger] is_first_match(name_views, ascii_lower(s@), m);
                assert(is_first_match(name_views, ascii_lower(s@), c));
                if c < i {
                    assert(!name_matches(name_views[c], needle@));
                } else if c > i {
                    assert(!name_matches(name_views[i as int], ascii_lower(s@)));
                }
                assert(c == i);
            }
            return DeviceChoice::Device(i);
        }
        i = i + 1;
    }
    DeviceChoice::NoMatch
}

} // verus!
