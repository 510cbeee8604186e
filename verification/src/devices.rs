//! Input-device descriptions: the friendly display name of a raw device
//! identifier, and the numbering that keeps display names unique.
//! Enumerating the actual devices is the shell's business.

use vstd::prelude::*;
use vstd::string::StrSliceExecFns;
use vstd::string::StringExecFns;

use crate::num::len_from;
use crate::text::{decimal_digits, str_eq, u64_to_string};

verus! {

/// One input device as shown to the user.
pub struct AudioDeviceInfo {
    /// The raw identifier the audio backend reports.
    pub name: String,
    /// The name shown in the device list, unique within it.
    pub display_name: String,
    pub is_default: bool,
    pub sample_rate: u32,
    pub channels: u16,
}

/// Why capture could not begin.
#[derive(Clone, Copy, Debug, PartialEq, Eq, Structural)]
pub enum CaptureError {
    /// No backend offered a usable input device; fatal to the session
    /// only, reported upward once.
    NoInputDevice,
}

/// First candidate that holds a device, or the length if none does.
pub open spec fn first_some(s: Seq<Option<AudioDeviceInfo>>) -> int
    decreases s.len(),
{
    if s.len() == 0 {
        0
    } else if s[0] is Some {
        0
    } else {
        1 + first_some(s.drop_first())
    }
}

proof fn lemma_first_some(s: Seq<Option<AudioDeviceInfo>>)
    ensures
        0 <= first_some(s) <= s.len(),
        first_some(s) < s.len() ==> s[first_some(s)] is Some,
        forall|i: int| 0 <= i < first_some(s) ==> (#[trigger] s[i]) is None,
    decreases s.len(),
{
    if s.len() > 0 && s[0] is None {
        lemma_first_some(s.drop_first());
        assert(forall|i: int| 1 <= i < first_some(s) ==> (#[trigger] s[i]) == s.drop_first()[i
            - 1]);
    }
}

/// Copy a device description field by field.
pub fn clone_device(d: &AudioDeviceInfo) -> (r: AudioDeviceInfo)
    ensures
        r == *d,
{
    AudioDeviceInfo {
        name: d.name.clone(),
        display_name: d.display_name.clone(),
        is_default: d.is_default,
        sample_rate: d.sample_rate,
        channels: d.channels,
    }
}

/// Walk the fallback list of candidate devices, one per backend in
/// preference order, and take the first that is usable; with none, the
/// distinct no-input-device error.
pub fn select_first_available(candidates: &Vec<Option<AudioDeviceInfo>>) -> (r: Result<
    AudioDeviceInfo,
    CaptureError,
>)
    ensures
        (r is Ok) <==> first_some(candidates@) < candidates@.len(),
        r matches Ok(d) ==> candidates@[first_some(candidates@)] == Some(d),
        r is Err ==> r == Err::<AudioDeviceInfo, CaptureError>(CaptureError::NoInputDevice),
{
    let n = candidates.len();
    let mut k: usize = 0;
    while k < n
        invariant
            n == candidates@.len(),
            k <= n,
            forall|i: int| 0 <= i < k ==> (#[trigger] candidates@[i]) is None,
        decreases n - k,
    {
        match &candidates[k] {
            Some(d) => {
                proof {
                    lemma_first_some(candidates@);
                    assert(first_some(candidates@) == k as int) by {
                        if first_some(candidates@) < k as int {
                            assert(candidates@[first_some(candidates@)] is None);
                        } else if first_some(candidates@) > k as int {
                            assert(candidates@[k as int] is None);
                        }
                    }
                }
                return Ok(clone_device(d));
            }
            None => {
                k += 1;
            }
        }
    }
    proof {
        lemma_first_some(candidates@);
    }
    Err(CaptureError::NoInputDevice)
}

/// The character code with an ASCII capital folded to lower case.
pub open spec fn lower_code(c: char) -> int {
    if 'A' <= c && c <= 'Z' {
        c as int + 32
    } else {
        c as int
    }
}

/// Case-insensitive (ASCII) equality against an already-lower text.
pub open spec fn lower_eq(s: Seq<char>, t: Seq<char>) -> bool {
    s.len() == t.len() && forall|i: int| 0 <= i < s.len() ==> lower_code(#[trigger] s[i])
        == t[i] as int
}

/// Whether the identifier begins with `hw:` in any case.
pub open spec fn starts_hw(s: Seq<char>) -> bool {
    s.len() >= 3 && lower_code(s[0]) == 'h' as int && lower_code(s[1]) == 'w' as int && s[2]
        == ':'
}

/// The `CARD=` marker sits at `i`.
pub open spec fn card_marker_at(s: Seq<char>, i: int) -> bool {
    &&& 0 <= i
    &&& i + 5 <= s.len()
    &&& s[i] == 'C'
    &&& s[i + 1] == 'A'
    &&& s[i + 2] == 'R'
    &&& s[i + 3] == 'D'
    &&& s[i + 4] == '='
}

/// First position of the `CARD=` marker at or after `from`, or the
/// length if there is none.
pub open spec fn card_start(s: Seq<char>, from: int) -> int
    recommends
        0 <= from,
    decreases len_from(s.len() as int, from),
{
    if from + 5 > s.len() {
        s.len() as int
    } else if card_marker_at(s, from) {
        from
    } else {
        card_start(s, from + 1)
    }
}

/// First `,` or `]` at or after `from`, or the length.
pub open spec fn card_end(s: Seq<char>, from: int) -> int
    recommends
        0 <= from <= s.len(),
    decreases len_from(s.len() as int, from),
{
    if from >= s.len() {
        s.len() as int
    } else if s[from] == ',' || s[from] == ']' {
        from
    } else {
        card_end(s, from + 1)
    }
}

proof fn lemma_card_start_bounds(s: Seq<char>, from: int)
    requires
        0 <= from <= s.len(),
    ensures
        from <= card_start(s, from) <= s.len(),
        card_start(s, from) < s.len() ==> card_marker_at(s, card_start(s, from)),
    decreases s.len() - from,
{
    if from + 5 <= s.len() && !card_marker_at(s, from) {
        lemma_card_start_bounds(s, from + 1);
    }
}

proof fn lemma_card_start_skip(s: Seq<char>, i: int)
    requires
        0 <= i,
        i + 5 <= s.len(),
        !card_marker_at(s, i),
    ensures
        card_start(s, i) == card_start(s, i + 1),
{
}

proof fn lemma_card_end_skip(s: Seq<char>, i: int)
    requires
        0 <= i < s.len(),
        !(s[i] == ',' || s[i] == ']'),
    ensures
        card_end(s, i) == card_end(s, i + 1),
{
}

/// The display name a raw identifier turns into: the stock aliases for
/// the default and PulseAudio devices; for an ALSA `hw:` identifier the
/// card name extracted after its `CARD=` marker (up to the next `,` or
/// `]`); anything else is shown as it is.
pub open spec fn friendly_spec(s: Seq<char>) -> Seq<char> {
    if lower_eq(s, "default"@) {
        "Default Device"@
    } else if lower_eq(s, "pulse"@) {
        "PulseAudio"@
    } else if starts_hw(s) {
        let cs = card_start(s, 0);
        if cs < s.len() {
            s.subrange(cs + 5, card_end(s, cs + 5))
        } else {
            s
        }
    } else {
        s
    }
}

/// Case-insensitive comparison against a lower-case literal.
fn eq_lower(s: &str, lit: &str) -> (r: bool)
    ensures
        r == lower_eq(s@, lit@),
{
    let n = s.unicode_len();
    let m = lit.unicode_len();
    if n != m {
        return false;
    }
    let mut i: usize = 0;
    while i < n
        invariant
            n == s@.len(),
            n == lit@.len(),
            i <= n,
            forall|k: int| 0 <= k < i ==> lower_code(#[trigger] s@[k]) == lit@[k] as int,
        decreases n - i,
    {
        let c = s.get_char(i);
        let l = lit.get_char(i);
        let code: u32 = if c >= 'A' && c <= 'Z' {
            c as u32 + 32
        } else {
            c as u32
        };
        if code != l as u32 {
            return false;
        }
        i += 1;
    }
    true
}

/// Turn a raw device identifier into its display name, as
/// `friendly_spec` states it.
pub fn friendly_name(raw: &str) -> (r: String)
    ensures
        r@ == friendly_spec(raw@),
{
    if eq_lower(raw, "default") {
        proof {
            reveal_strlit("default");
            reveal_strlit("Default Device");
        }
        return String::from_str("Default Device");
    }
    if eq_lower(raw, "pulse") {
        proof {
            reveal_strlit("pulse");
            reveal_strlit("PulseAudio");
        }
        return String::from_str("PulseAudio");
    }
    let n = raw.unicode_len();
    let is_hw = if n >= 3 {
        let c0 = raw.get_char(0);
        let c1 = raw.get_char(1);
        let c2 = raw.get_char(2);
        let l0: u32 = if c0 >= 'A' && c0 <= 'Z' {
            c0 as u32 + 32
        } else {
            c0 as u32
        };
        let l1: u32 = if c1 >= 'A' && c1 <= 'Z' {
            c1 as u32 + 32
        } else {
            c1 as u32
        };
        l0 == 'h' as u32 && l1 == 'w' as u32 && c2 == ':'
    } else {
        false
    };
    if !is_hw {
        return raw.to_owned();
    }
    let mut i: usize = 0;
    while n - i >= 5 && !(raw.get_char(i) == 'C' && raw.get_char(i + 1) == 'A' && raw.get_char(
        i + 2,
    ) == 'R' && raw.get_char(i + 3) == 'D' && raw.get_char(i + 4) == '=')
        invariant
            n == raw@.len(),
            i <= n,
            card_start(raw@, 0) == card_start(raw@, i as int),
        decreases n - i,
    {
        proof {
            lemma_card_start_skip(raw@, i as int);
        }
        i += 1;
    }
    proof {
        lemma_card_start_bounds(raw@, i as int);
    }
    if n - i < 5 {
        proof {
            assert(card_start(raw@, i as int) == n);
        }
        return raw.to_owned();
    }
    proof {
        assert(card_marker_at(raw@, i as int));
        assert(card_start(raw@, i as int) == i);
    }
    let start = i + 5;
    let mut j: usize = start;
    while j < n && !(raw.get_char(j) == ',' || raw.get_char(j) == ']')
        invariant
            n == raw@.len(),
            start <= j <= n,
            card_end(raw@, start as int) == card_end(raw@, j as int),
        decreases n - j,
    {
        proof {
            lemma_card_end_skip(raw@, j as int);
        }
        j += 1;
    }
    proof {
        assert(card_end(raw@, start as int) == j);
    }
    let card = raw.substring_char(start, j);
    card.to_owned()
}

/// How many of the first `upto` names equal `name`.
pub open spec fn count_eq(names: Seq<Seq<char>>, upto: int, name: Seq<char>) -> int
    decreases upto,
{
    if upto <= 0 {
        0
    } else {
        count_eq(names, upto - 1, name) + if names[upto - 1] == name {
            1int
        } else {
            0int
        }
    }
}

/// The display name at `i` once duplicates are numbered: the second
/// occurrence of a name gets ` (1)`, the third ` (2)`, and so on.
pub open spec fn deduped_at(names: Seq<Seq<char>>, i: int) -> Seq<char> {
    let earlier = count_eq(names, i, names[i]);
    if earlier == 0 {
        names[i]
    } else {
        names[i] + " ("@ + decimal_digits(earlier) + ")"@
    }
}

/// Number duplicate display names so each is unique in the list; the
/// raw identifiers and everything else stay as they are.
pub fn dedup_display_names(devices: &mut Vec<AudioDeviceInfo>)
    ensures
        final(devices)@.len() == old(devices)@.len(),
        forall|i: int| 0 <= i < old(devices)@.len() ==> ({
            let names = Seq::new(old(devices)@.len(), |k: int| old(devices)@[k].display_name@);
            &&& (#[trigger] final(devices)@[i]).display_name@ == deduped_at(names, i)
            &&& final(devices)@[i].name == old(devices)@[i].name
            &&& final(devices)@[i].is_default == old(devices)@[i].is_default
            &&& final(devices)@[i].sample_rate == old(devices)@[i].sample_rate
            &&& final(devices)@[i].channels == old(devices)@[i].channels
        }),
{
    let ghost names = Seq::new(old(devices)@.len(), |k: int| old(devices)@[k].display_name@);
    let n = devices.len();
    let mut orig: Vec<String> = Vec::new();
    let mut p: usize = 0;
    while p < n
        invariant
            n == devices@.len(),
            n == old(devices)@.len(),
            devices@ == old(devices)@,
            names == Seq::new(old(devices)@.len(), |k: int| old(devices)@[k].display_name@),
            p <= n,
            orig@.len() == p,
            forall|k: int| 0 <= k < p ==> (#[trigger] orig@[k])@ == names[k],
        decreases n - p,
    {
        orig.push(devices[p].display_name.clone());
        p += 1;
    }
    let mut i: usize = 0;
    while i < n
        invariant
            n == devices@.len(),
            n == old(devices)@.len(),
            names == Seq::new(old(devices)@.len(), |k: int| old(devices)@[k].display_name@),
            orig@.len() == n,
            forall|k: int| 0 <= k < n ==> (#[trigger] orig@[k])@ == names[k],
            i <= n,
            forall|k: int| i <= k < n ==> #[trigger] devices@[k] == old(devices)@[k],
            forall|k: int| 0 <= k < i ==> ({
                &&& (#[trigger] devices@[k]).display_name@ == deduped_at(names, k)
                &&& devices@[k].name == old(devices)@[k].name
                &&& devices@[k].is_default == old(devices)@[k].is_default
                &&& devices@[k].sample_rate == old(devices)@[k].sample_rate
                &&& devices@[k].channels == old(devices)@[k].channels
            }),
        decreases n - i,
    {
        let mut earlier: u64 = 0;
        let mut j: usize = 0;
        while j < i
            invariant
                n == devices@.len(),
                i < n,
                j <= i,
                orig@.len() == n,
                forall|k: int| 0 <= k < n ==> (#[trigger] orig@[k])@ == names[k],
                earlier == count_eq(names, j as int, names[i as int]),
                earlier <= j,
            decreases i - j,
        {
            let same = str_eq(orig[j].as_str(), orig[i].as_str());
            if same {
                earlier = earlier + 1;
            }
            j += 1;
        }
        if earlier > 0 {
            let mut renamed = devices[i].display_name.clone();
            renamed.append(" (");
            let digits = u64_to_string(earlier);
            renamed.append(digits.as_str());
            renamed.append(")");
            let d = &devices[i];
            let updated = AudioDeviceInfo {
                name: d.name.clone(),
                display_name: renamed,
                is_default: d.is_default,
                sample_rate: d.sample_rate,
                channels: d.channels,
            };
            devices.remove(i);
            devices.insert(i, updated);
        }
        i += 1;
    }
}

} // verus!
