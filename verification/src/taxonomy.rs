//! The opcode taxonomy table and the classifier.  The table is the
//! specification: for each recognized key it gives the value kind and the
//! inclusive range; `classify` is proved to admit exactly the values the
//! table admits, to reject the rest naming the declared bounds, and to
//! hand values through without loss.

use vstd::prelude::*;
use crate::lexer::{chars_eq_lit, starts_with_lit};
use crate::preprocess::clone_chars;
use crate::numbers::{parse_dec, parse_dec_spec, parse_int, parse_int_spec, dec_in_range,
    all_digits, digits_val, parse_uint, parse_uint_spec, Decimal};
use crate::opcode_types::{AmplifierEGParameter, AmplifierLFOParameter, AmplifierParameter, EqualizerParameter, FilterEGParameter, FilterLFOParameter, FilterParameter, InstrumentSettings, InternalConditions, KeyMapping, MidiConditions, PitchEGParameter, PitchLFOParameter, PitchParameter, SamplePlayback, Triggers, VoiceLifecycle, PerformanceParameter, Opcode};
use crate::tokenizer::RawOpcode;
use crate::SfzError;

verus! {

/// The kind of value a taxonomy entry expects.
#[derive(Debug, Clone, Copy, PartialEq, Eq, Structural)]
pub enum VKind {
    /// An integer within an inclusive range.
    VInt,
    /// A decimal number within an inclusive range.
    VDec,
    /// One name out of a closed set.
    VName,
    /// Free text.
    VText,
}

/// Whether `key` is `prefix` followed by one to three digits denoting a
/// controller index up to 255.
pub open spec fn is_cc_key(key: Seq<char>, prefix: Seq<char>) -> bool {
    &&& key.len() > prefix.len()
    &&& key.take(prefix.len() as int) == prefix
    &&& key.len() - prefix.len() <= 3
    &&& all_digits(key.skip(prefix.len() as int))
    &&& digits_val(key.skip(prefix.len() as int)) <= 255
}

/// The controller index embedded in a `prefix<N>` key.
pub open spec fn cc_index_spec(key: Seq<char>, prefix: Seq<char>) -> int {
    digits_val(key.skip(prefix.len() as int))
}

/// Parses the controller index after `prefix`, if `key` is of that family.
pub fn cc_suffix(key: &Vec<char>, prefix: &str) -> (r: Option<u8>)
    requires
        prefix.is_ascii(),
    ensures
        match r {
            Some(i) => is_cc_key(key@, prefix@) && cc_index_spec(key@, prefix@) == i as int,
            None => !is_cc_key(key@, prefix@),
        },
{
    proof {
        vstd::string::is_ascii_spec_bytes(prefix);
    }
    let plen = prefix.as_bytes().len();
    if key.len() <= plen {
        return None;
    }
    if !starts_with_lit(key, 0, prefix) {
        return None;
    }
    if key.len() - plen > 3 {
        return None;
    }
    proof {
        assert(key@.take(plen as int) =~= key@.subrange(0, plen as int));
        assert(key@.skip(plen as int) =~= key@.subrange(plen as int, key@.len() as int));
    }
    match parse_uint(key, plen, key.len()) {
        Some(v) => {
            if v <= 255 {
                Some(v as u8)
            } else {
                None
            }
        },
        None => None,
    }
}

/// Whether `value` is admissible for an entry of kind `kind` with bounds
/// `lo..=hi` under `key`.
pub open spec fn value_ok(kind: VKind, lo: int, hi: int, key: Seq<char>, value: Seq<char>) -> bool {
    match kind {
        VKind::VInt => match parse_int_spec(value) {
            Some(n) => lo <= n <= hi,
            None => false,
        },
        VKind::VDec => match parse_dec_spec(value) {
            Some(d) => d.in_range(lo, hi),
            None => false,
        },
        VKind::VName => name_allowed(key, value),
        VKind::VText => true,
    }
}

/// The closed name set of each enumerated-value key.
pub open spec fn name_allowed(key: Seq<char>, value: Seq<char>) -> bool {
    if key == "trigger"@ {
        value == "attack"@ || value == "release"@ || value == "first"@ || value == "legato"@ || value == "release_key"@
    } else if key == "off_mode"@ {
        value == "fast"@ || value == "normal"@ || value == "time"@
    } else if key == "loop_mode"@ {
        value == "no_loop"@ || value == "one_shot"@ || value == "loop_continuous"@ || value == "loop_sustain"@
    } else if key == "direction"@ {
        value == "forward"@ || value == "reverse"@
    } else if key == "fil_type"@ {
        value == "lpf_1p"@ || value == "hpf_1p"@ || value == "lpf_2p"@ || value == "hpf_2p"@ || value == "bpf_2p"@ || value == "brf_2p"@
    } else if key == "xf_keycurve"@ {
        value == "gain"@ || value == "power"@
    } else {
        false
    }
}

/// Table entries for [`KeyMapping`] keys.
pub open spec fn key_mapping_tax(key: Seq<char>) -> Option<(VKind, int, int)> {
    if key == "lokey"@ {
        Some((VKind::VInt, 0, 127))
    } else if key == "hikey"@ {
        Some((VKind::VInt, 0, 127))
    } else if key == "key"@ {
        Some((VKind::VInt, 0, 127))
    } else if key == "lovel"@ {
        Some((VKind::VInt, 0, 127))
    } else if key == "hivel"@ {
        Some((VKind::VInt, 0, 127))
    } else {
        None
    }
}

/// Which key each [`KeyMapping`] variant classifies.
pub open spec fn key_mapping_key_match(t: KeyMapping, key: Seq<char>) -> bool {
    match t {
        KeyMapping::LoKey(_) => key == "lokey"@,
        KeyMapping::HiKey(_) => key == "hikey"@,
        KeyMapping::Key(_) => key == "key"@,
        KeyMapping::LoVel(_) => key == "lovel"@,
        KeyMapping::HiVel(_) => key == "hivel"@,
    }
}

/// The value each [`KeyMapping`] variant carries, against the raw text.
pub open spec fn key_mapping_value_match(t: KeyMapping, value: Seq<char>) -> bool {
    match t {
        KeyMapping::LoKey(n) => parse_int_spec(value) == Some(n as int),
        KeyMapping::HiKey(n) => parse_int_spec(value) == Some(n as int),
        KeyMapping::Key(n) => parse_int_spec(value) == Some(n as int),
        KeyMapping::LoVel(n) => parse_int_spec(value) == Some(n as int),
        KeyMapping::HiVel(n) => parse_int_spec(value) == Some(n as int),
    }
}

/// Classifies a raw pair against the [`KeyMapping`] entries.
pub fn classify_key_mapping(key: &Vec<char>, value: &Vec<char>) -> (r: Option<Result<KeyMapping, (i64, i64)>>)
    ensures
        match r {
            None => key_mapping_tax(key@) is None,
            Some(Ok(t)) => ({
                &&& key_mapping_tax(key@) matches Some((k, lo, hi)) && value_ok(k, lo, hi, key@, value@)
                &&& key_mapping_key_match(t, key@)
                &&& key_mapping_value_match(t, value@)
            }),
            Some(Err((lo, hi))) => ({
                &&& key_mapping_tax(key@) matches Some((k, l, h)) && l == lo && h == hi && !value_ok(
                    k, l, h, key@, value@)
            }),
        },
{
    proof {
        assert(value@.subrange(0, value@.len() as int) =~= value@);
        reveal_strlit("trigger");
        reveal_strlit("off_mode");
        reveal_strlit("loop_mode");
        reveal_strlit("direction");
        reveal_strlit("fil_type");
        reveal_strlit("xf_keycurve");
        assert("trigger"@[0] == 't');
        assert("off_mode"@[0] == 'o');
        assert("loop_mode"@[0] == 'l');
        assert("direction"@[0] == 'd');
        assert("fil_type"@[0] == 'f');
        assert("xf_keycurve"@[0] == 'x');
        reveal_strlit("hikey");
        reveal_strlit("hivel");
        reveal_strlit("key");
        reveal_strlit("lokey");
        reveal_strlit("lovel");
    }
    if chars_eq_lit(key, "lokey") {
        return Some(match parse_int(value, 0, value.len()) {
            Some(n) => if 0 <= n && n <= 127 {
                Ok(KeyMapping::LoKey(n as u8))
            } else {
                Err((0i64, 127i64))
            },
            None => Err((0i64, 127i64)),
        });
    }
    if chars_eq_lit(key, "hikey") {
        return Some(match parse_int(value, 0, value.len()) {
            Some(n) => if 0 <= n && n <= 127 {
                Ok(KeyMapping::HiKey(n as u8))
            } else {
                Err((0i64, 127i64))
            },
            None => Err((0i64, 127i64)),
        });
    }
    if chars_eq_lit(key, "key") {
        return Some(match parse_int(value, 0, value.len()) {
            Some(n) => if 0 <= n && n <= 127 {
                Ok(KeyMapping::Key(n as u8))
            } else {
                Err((0i64, 127i64))
            },
            None => Err((0i64, 127i64)),
        });
    }
    if chars_eq_lit(key, "lovel") {
        return Some(match parse_int(value, 0, value.len()) {
            Some(n) => if 0 <= n && n <= 127 {
                Ok(KeyMapping::LoVel(n as u8))
            } else {
                Err((0i64, 127i64))
            },
            None => Err((0i64, 127i64)),
        });
    }
    if chars_eq_lit(key, "hivel") {
        return Some(match parse_int(value, 0, value.len()) {
            Some(n) => if 0 <= n && n <= 127 {
                Ok(KeyMapping::HiVel(n as u8))
            } else {
                Err((0i64, 127i64))
            },
            None => Err((0i64, 127i64)),
        });
    }
    None
}

/// Table entries for [`MidiConditions`] keys.
pub open spec fn midi_conditions_tax(key: Seq<char>) -> Option<(VKind, int, int)> {
    if key == "lochan"@ {
        Some((VKind::VInt, 1, 16))
    } else if key == "hichan"@ {
        Some((VKind::VInt, 1, 16))
    } else if key == "lobend"@ {
        Some((VKind::VInt, -8192, 8192))
    } else if key == "hibend"@ {
        Some((VKind::VInt, -8192, 8192))
    } else if key == "loprog"@ {
        Some((VKind::VInt, 0, 127))
    } else if key == "hiprog"@ {
        Some((VKind::VInt, 0, 127))
    } else if key == "sw_lokey"@ {
        Some((VKind::VInt, 0, 127))
    } else if key == "sw_hikey"@ {
        Some((VKind::VInt, 0, 127))
    } else if key == "sw_last"@ {
        Some((VKind::VInt, 0, 127))
    } else if key == "sw_down"@ {
        Some((VKind::VInt, 0, 127))
    } else if key == "sw_up"@ {
        Some((VKind::VInt, 0, 127))
    } else if key == "sw_previous"@ {
        Some((VKind::VInt, 0, 127))
    } else if is_cc_key(key, "locc"@) {
        Some((VKind::VInt, 0, 127))
    } else if is_cc_key(key, "hicc"@) {
        Some((VKind::VInt, 0, 127))
    } else {
        None
    }
}

/// Which key each [`MidiConditions`] variant classifies.
pub open spec fn midi_conditions_key_match(t: MidiConditions, key: Seq<char>) -> bool {
    match t {
        MidiConditions::LowChan(_) => key == "lochan"@,
        MidiConditions::HighChan(_) => key == "hichan"@,
        MidiConditions::LowBend(_) => key == "lobend"@,
        MidiConditions::HighBend(_) => key == "hibend"@,
        MidiConditions::LowProg(_) => key == "loprog"@,
        MidiConditions::HighProg(_) => key == "hiprog"@,
        MidiConditions::SwLowKey(_) => key == "sw_lokey"@,
        MidiConditions::SwHighKey(_) => key == "sw_hikey"@,
        MidiConditions::SwLast(_) => key == "sw_last"@,
        MidiConditions::SwDown(_) => key == "sw_down"@,
        MidiConditions::SwUp(_) => key == "sw_up"@,
        MidiConditions::SwPrevious(_) => key == "sw_previous"@,
        MidiConditions::LowCC(i, _) => is_cc_key(key, "locc"@) && cc_index_spec(key, "locc"@) == i as int,
        MidiConditions::HighCC(i, _) => is_cc_key(key, "hicc"@) && cc_index_spec(key, "hicc"@) == i as int,
    }
}

/// The value each [`MidiConditions`] variant carries, against the raw text.
pub open spec fn midi_conditions_value_match(t: MidiConditions, value: Seq<char>) -> bool {
    match t {
        MidiConditions::LowChan(n) => parse_int_spec(value) == Some(n as int),
        MidiConditions::HighChan(n) => parse_int_spec(value) == Some(n as int),
        MidiConditions::LowBend(n) => parse_int_spec(value) == Some(n as int),
        MidiConditions::HighBend(n) => parse_int_spec(value) == Some(n as int),
        MidiConditions::LowProg(n) => parse_int_spec(value) == Some(n as int),
        MidiConditions::HighProg(n) => parse_int_spec(value) == Some(n as int),
        MidiConditions::SwLowKey(n) => parse_int_spec(value) == Some(n as int),
        MidiConditions::SwHighKey(n) => parse_int_spec(value) == Some(n as int),
        MidiConditions::SwLast(n) => parse_int_spec(value) == Some(n as int),
        MidiConditions::SwDown(n) => parse_int_spec(value) == Some(n as int),
        MidiConditions::SwUp(n) => parse_int_spec(value) == Some(n as int),
        MidiConditions::SwPrevious(n) => parse_int_spec(value) == Some(n as int),
        MidiConditions::LowCC(_, n) => parse_int_spec(value) == Some(n as int),
        MidiConditions::HighCC(_, n) => parse_int_spec(value) == Some(n as int),
    }
}

/// Classifies a raw pair against the [`MidiConditions`] entries.
pub fn classify_midi_conditions(key: &Vec<char>, value: &Vec<char>) -> (r: Option<Result<MidiConditions, (i64, i64)>>)
    ensures
        match r {
            None => midi_conditions_tax(key@) is None,
            Some(Ok(t)) => ({
                &&& midi_conditions_tax(key@) matches Some((k, lo, hi)) && value_ok(k, lo, hi, key@, value@)
                &&& midi_conditions_key_match(t, key@)
                &&& midi_conditions_value_match(t, value@)
            }),
            Some(Err((lo, hi))) => ({
                &&& midi_conditions_tax(key@) matches Some((k, l, h)) && l == lo && h == hi && !value_ok(
                    k, l, h, key@, value@)
            }),
        },
{
    proof {
        assert(value@.subrange(0, value@.len() as int) =~= value@);
        reveal_strlit("trigger");
        reveal_strlit("off_mode");
        reveal_strlit("loop_mode");
        reveal_strlit("direction");
        reveal_strlit("fil_type");
        reveal_strlit("xf_keycurve");
        assert("trigger"@[0] == 't');
        assert("off_mode"@[0] == 'o');
        assert("loop_mode"@[0] == 'l');
        assert("direction"@[0] == 'd');
        assert("fil_type"@[0] == 'f');
        assert("xf_keycurve"@[0] == 'x');
        reveal_strlit("hibend");
        reveal_strlit("hicc");
        reveal_strlit("hichan");
        reveal_strlit("hiprog");
        reveal_strlit("lobend");
        reveal_strlit("locc");
        reveal_strlit("lochan");
        reveal_strlit("loprog");
        reveal_strlit("sw_down");
        reveal_strlit("sw_hikey");
        reveal_strlit("sw_last");
        reveal_strlit("sw_lokey");
        reveal_strlit("sw_previous");
        reveal_strlit("sw_up");
    }
    if chars_eq_lit(key, "lochan") {
        return Some(match parse_int(value, 0, value.len()) {
            Some(n) => if 1 <= n && n <= 16 {
                Ok(MidiConditions::LowChan(n as u8))
            } else {
                Err((1i64, 16i64))
            },
            None => Err((1i64, 16i64)),
        });
    }
    if chars_eq_lit(key, "hichan") {
        return Some(match parse_int(value, 0, value.len()) {
            Some(n) => if 1 <= n && n <= 16 {
                Ok(MidiConditions::HighChan(n as u8))
            } else {
                Err((1i64, 16i64))
            },
            None => Err((1i64, 16i64)),
        });
    }
    if chars_eq_lit(key, "lobend") {
        return Some(match parse_int(value, 0, value.len()) {
            Some(n) => if -8192 <= n && n <= 8192 {
                Ok(MidiConditions::LowBend(n as i16))
            } else {
                Err((-8192i64, 8192i64))
            },
            None => Err((-8192i64, 8192i64)),
        });
    }
    if chars_eq_lit(key, "hibend") {
        return Some(match parse_int(value, 0, value.len()) {
            Some(n) => if -8192 <= n && n <= 8192 {
                Ok(MidiConditions::HighBend(n as i16))
            } else {
                Err((-8192i64, 8192i64))
            },
            None => Err((-8192i64, 8192i64)),
        });
    }
    if chars_eq_lit(key, "loprog") {
        return Some(match parse_int(value, 0, value.len()) {
            Some(n) => if 0 <= n && n <= 127 {
                Ok(MidiConditions::LowProg(n as u8))
            } else {
                Err((0i64, 127i64))
            },
            None => Err((0i64, 127i64)),
        });
    }
    if chars_eq_lit(key, "hiprog") {
        return Some(match parse_int(value, 0, value.len()) {
            Some(n) => if 0 <= n && n <= 127 {
                Ok(MidiConditions::HighProg(n as u8))
            } else {
                Err((0i64, 127i64))
            },
            None => Err((0i64, 127i64)),
        });
    }
    if chars_eq_lit(key, "sw_lokey") {
        return Some(match parse_int(value, 0, value.len()) {
            Some(n) => if 0 <= n && n <= 127 {
                Ok(MidiConditions::SwLowKey(n as u8))
            } else {
                Err((0i64, 127i64))
            },
            None => Err((0i64, 127i64)),
        });
    }
    if chars_eq_lit(key, "sw_hikey") {
        return Some(match parse_int(value, 0, value.len()) {
            Some(n) => if 0 <= n && n <= 127 {
                Ok(MidiConditions::SwHighKey(n as u8))
            } else {
                Err((0i64, 127i64))
            },
            None => Err((0i64, 127i64)),
        });
    }
    if chars_eq_lit(key, "sw_last") {
        return Some(match parse_int(value, 0, value.len()) {
            Some(n) => if 0 <= n && n <= 127 {
                Ok(MidiConditions::SwLast(n as u8))
            } else {
                Err((0i64, 127i64))
            },
            None => Err((0i64, 127i64)),
        });
    }
    if chars_eq_lit(key, "sw_down") {
        return Some(match parse_int(value, 0, value.len()) {
            Some(n) => if 0 <= n && n <= 127 {
                Ok(MidiConditions::SwDown(n as u8))
            } else {
                Err((0i64, 127i64))
            },
            None => Err((0i64, 127i64)),
        });
    }
    if chars_eq_lit(key, "sw_up") {
        return Some(match parse_int(value, 0, value.len()) {
            Some(n) => if 0 <= n && n <= 127 {
                Ok(MidiConditions::SwUp(n as u8))
            } else {
                Err((0i64, 127i64))
            },
            None => Err((0i64, 127i64)),
        });
    }
    if chars_eq_lit(key, "sw_previous") {
        return Some(match parse_int(value, 0, value.len()) {
            Some(n) => if 0 <= n && n <= 127 {
                Ok(MidiConditions::SwPrevious(n as u8))
            } else {
                Err((0i64, 127i64))
            },
            None => Err((0i64, 127i64)),
        });
    }
    match cc_suffix(key, "locc") {
        Some(idx) => {
            return Some(match parse_int(value, 0, value.len()) {
                Some(n) => if 0 <= n && n <= 127 {
                    Ok(MidiConditions::LowCC(idx, n as u8))
                } else {
                    Err((0i64, 127i64))
                },
                None => Err((0i64, 127i64)),
            });
        },
        None => {},
    }
    match cc_suffix(key, "hicc") {
        Some(idx) => {
            return Some(match parse_int(value, 0, value.len()) {
                Some(n) => if 0 <= n && n <= 127 {
                    Ok(MidiConditions::HighCC(idx, n as u8))
                } else {
                    Err((0i64, 127i64))
                },
                None => Err((0i64, 127i64)),
            });
        },
        None => {},
    }
    None
}

/// Table entries for [`InternalConditions`] keys.
pub open spec fn internal_conditions_tax(key: Seq<char>) -> Option<(VKind, int, int)> {
    if key == "lochanaft"@ {
        Some((VKind::VInt, 0, 127))
    } else if key == "hichanaft"@ {
        Some((VKind::VInt, 0, 127))
    } else if key == "lopolyaft"@ {
        Some((VKind::VInt, 0, 127))
    } else if key == "hipolyaft"@ {
        Some((VKind::VInt, 0, 127))
    } else if key == "lorand"@ {
        Some((VKind::VDec, 0, 1))
    } else if key == "hirand"@ {
        Some((VKind::VDec, 0, 1))
    } else if key == "lobpm"@ {
        Some((VKind::VDec, 0, 500))
    } else if key == "hibpm"@ {
        Some((VKind::VDec, 0, 500))
    } else if key == "lotimer"@ {
        Some((VKind::VDec, 0, 100))
    } else if key == "hitimer"@ {
        Some((VKind::VDec, 0, 100))
    } else if key == "seq_length"@ {
        Some((VKind::VInt, 1, 100))
    } else if key == "seq_position"@ {
        Some((VKind::VInt, 1, 100))
    } else {
        None
    }
}

/// Which key each [`InternalConditions`] variant classifies.
pub open spec fn internal_conditions_key_match(t: InternalConditions, key: Seq<char>) -> bool {
    match t {
        InternalConditions::LowChanAft(_) => key == "lochanaft"@,
        InternalConditions::HighChanAft(_) => key == "hichanaft"@,
        InternalConditions::LowPolyAft(_) => key == "lopolyaft"@,
        InternalConditions::HighPolyAft(_) => key == "hipolyaft"@,
        InternalConditions::LowRand(_) => key == "lorand"@,
        InternalConditions::HighRand(_) => key == "hirand"@,
        InternalConditions::LowBpm(_) => key == "lobpm"@,
        InternalConditions::HighBpm(_) => key == "hibpm"@,
        InternalConditions::LowTimer(_) => key == "lotimer"@,
        InternalConditions::HighTimer(_) => key == "hitimer"@,
        InternalConditions::SeqLength(_) => key == "seq_length"@,
        InternalConditions::SeqPosition(_) => key == "seq_position"@,
    }
}

/// The value each [`InternalConditions`] variant carries, against the raw text.
pub open spec fn internal_conditions_value_match(t: InternalConditions, value: Seq<char>) -> bool {
    match t {
        InternalConditions::LowChanAft(n) => parse_int_spec(value) == Some(n as int),
        InternalConditions::HighChanAft(n) => parse_int_spec(value) == Some(n as int),
        InternalConditions::LowPolyAft(n) => parse_int_spec(value) == Some(n as int),
        InternalConditions::HighPolyAft(n) => parse_int_spec(value) == Some(n as int),
        InternalConditions::LowRand(d) => parse_dec_spec(value) == Some(d),
        InternalConditions::HighRand(d) => parse_dec_spec(value) == Some(d),
        InternalConditions::LowBpm(d) => parse_dec_spec(value) == Some(d),
        InternalConditions::HighBpm(d) => parse_dec_spec(value) == Some(d),
        InternalConditions::LowTimer(d) => parse_dec_spec(value) == Some(d),
        InternalConditions::HighTimer(d) => parse_dec_spec(value) == Some(d),
        InternalConditions::SeqLength(n) => parse_int_spec(value) == Some(n as int),
        InternalConditions::SeqPosition(n) => parse_int_spec(value) == Some(n as int),
    }
}

/// Classifies a raw pair against the [`InternalConditions`] entries.
pub fn classify_internal_conditions(key: &Vec<char>, value: &Vec<char>) -> (r: Option<Result<InternalConditions, (i64, i64)>>)
    ensures
        match r {
            None => internal_conditions_tax(key@) is None,
            Some(Ok(t)) => ({
                &&& internal_conditions_tax(key@) matches Some((k, lo, hi)) && value_ok(k, lo, hi, key@, value@)
                &&& internal_conditions_key_match(t, key@)
                &&& internal_conditions_value_match(t, value@)
            }),
            Some(Err((lo, hi))) => ({
                &&& internal_conditions_tax(key@) matches Some((k, l, h)) && l == lo && h == hi && !value_ok(
                    k, l, h, key@, value@)
            }),
        },
{
    proof {
        assert(value@.subrange(0, value@.len() as int) =~= value@);
        reveal_strlit("trigger");
        reveal_strlit("off_mode");
        reveal_strlit("loop_mode");
        reveal_strlit("direction");
        reveal_strlit("fil_type");
        reveal_strlit("xf_keycurve");
        assert("trigger"@[0] == 't');
        assert("off_mode"@[0] == 'o');
        assert("loop_mode"@[0] == 'l');
        assert("direction"@[0] == 'd');
        assert("fil_type"@[0] == 'f');
        assert("xf_keycurve"@[0] == 'x');
        reveal_strlit("hibpm");
        reveal_strlit("hichanaft");
        reveal_strlit("hipolyaft");
        reveal_strlit("hirand");
        reveal_strlit("hitimer");
        reveal_strlit("lobpm");
        reveal_strlit("lochanaft");
        reveal_strlit("lopolyaft");
        reveal_strlit("lorand");
        reveal_strlit("lotimer");
        reveal_strlit("seq_length");
        reveal_strlit("seq_position");
    }
    if chars_eq_lit(key, "lochanaft") {
        return Some(match parse_int(value, 0, value.len()) {
            Some(n) => if 0 <= n && n <= 127 {
                Ok(InternalConditions::LowChanAft(n as u8))
            } else {
                Err((0i64, 127i64))
            },
            None => Err((0i64, 127i64)),
        });
    }
    if chars_eq_lit(key, "hichanaft") {
        return Some(match parse_int(value, 0, value.len()) {
            Some(n) => if 0 <= n && n <= 127 {
                Ok(InternalConditions::HighChanAft(n as u8))
            } else {
                Err((0i64, 127i64))
            },
            None => Err((0i64, 127i64)),
        });
    }
    if chars_eq_lit(key, "lopolyaft") {
        return Some(match parse_int(value, 0, value.len()) {
            Some(n) => if 0 <= n && n <= 127 {
                Ok(InternalConditions::LowPolyAft(n as u8))
            } else {
                Err((0i64, 127i64))
            },
            None => Err((0i64, 127i64)),
        });
    }
    if chars_eq_lit(key, "hipolyaft") {
        return Some(match parse_int(value, 0, value.len()) {
            Some(n) => if 0 <= n && n <= 127 {
                Ok(InternalConditions::HighPolyAft(n as u8))
            } else {
                Err((0i64, 127i64))
            },
            None => Err((0i64, 127i64)),
        });
    }
    if chars_eq_lit(key, "lorand") {
        return Some(match parse_dec(value, 0, value.len()) {
            Some(d) => if dec_in_range(&d, 0, 1) {
                Ok(InternalConditions::LowRand(d))
            } else {
                Err((0i64, 1i64))
            },
            None => Err((0i64, 1i64)),
        });
    }
    if chars_eq_lit(key, "hirand") {
        return Some(match parse_dec(value, 0, value.len()) {
            Some(d) => if dec_in_range(&d, 0, 1) {
                Ok(InternalConditions::HighRand(d))
            } else {
                Err((0i64, 1i64))
            },
            None => Err((0i64, 1i64)),
        });
    }
    if chars_eq_lit(key, "lobpm") {
        return Some(match parse_dec(value, 0, value.len()) {
            Some(d) => if dec_in_range(&d, 0, 500) {
                Ok(InternalConditions::LowBpm(d))
            } else {
                Err((0i64, 500i64))
            },
            None => Err((0i64, 500i64)),
        });
    }
    if chars_eq_lit(key, "hibpm") {
        return Some(match parse_dec(value, 0, value.len()) {
            Some(d) => if dec_in_range(&d, 0, 500) {
                Ok(InternalConditions::HighBpm(d))
            } else {
                Err((0i64, 500i64))
            },
            None => Err((0i64, 500i64)),
        });
    }
    if chars_eq_lit(key, "lotimer") {
        return Some(match parse_dec(value, 0, value.len()) {
            Some(d) => if dec_in_range(&d, 0, 100) {
                Ok(InternalConditions::LowTimer(d))
            } else {
                Err((0i64, 100i64))
            },
            None => Err((0i64, 100i64)),
        });
    }
    if chars_eq_lit(key, "hitimer") {
        return Some(match parse_dec(value, 0, value.len()) {
            Some(d) => if dec_in_range(&d, 0, 100) {
                Ok(InternalConditions::HighTimer(d))
            } else {
                Err((0i64, 100i64))
            },
            None => Err((0i64, 100i64)),
        });
    }
    if chars_eq_lit(key, "seq_length") {
        return Some(match parse_int(value, 0, value.len()) {
            Some(n) => if 1 <= n && n <= 100 {
                Ok(InternalConditions::SeqLength(n as u8))
            } else {
                Err((1i64, 100i64))
            },
            None => Err((1i64, 100i64)),
        });
    }
    if chars_eq_lit(key, "seq_position") {
        return Some(match parse_int(value, 0, value.len()) {
            Some(n) => if 1 <= n && n <= 100 {
                Ok(InternalConditions::SeqPosition(n as u8))
            } else {
                Err((1i64, 100i64))
            },
            None => Err((1i64, 100i64)),
        });
    }
    None
}

/// Table entries for [`Triggers`] keys.
pub open spec fn triggers_tax(key: Seq<char>) -> Option<(VKind, int, int)> {
    if key == "trigger"@ {
        Some((VKind::VName, 0, 0))
    } else if is_cc_key(key, "on_locc"@) {
        Some((VKind::VInt, 0, 127))
    } else if is_cc_key(key, "on_hicc"@) {
        Some((VKind::VInt, 0, 127))
    } else {
        None
    }
}

/// Which key each [`Triggers`] variant classifies.
pub open spec fn triggers_key_match(t: Triggers, key: Seq<char>) -> bool {
    match t {
        Triggers::Trigger(_) => key == "trigger"@,
        Triggers::OnLowCC(i, _) => is_cc_key(key, "on_locc"@) && cc_index_spec(key, "on_locc"@) == i as int,
        Triggers::OnHighCC(i, _) => is_cc_key(key, "on_hicc"@) && cc_index_spec(key, "on_hicc"@) == i as int,
    }
}

/// The value each [`Triggers`] variant carries, against the raw text.
pub open spec fn triggers_value_match(t: Triggers, value: Seq<char>) -> bool {
    match t {
        Triggers::Trigger(v) => v@ == value,
        Triggers::OnLowCC(_, n) => parse_int_spec(value) == Some(n as int),
        Triggers::OnHighCC(_, n) => parse_int_spec(value) == Some(n as int),
    }
}

/// Classifies a raw pair against the [`Triggers`] entries.
pub fn classify_triggers(key: &Vec<char>, value: &Vec<char>) -> (r: Option<Result<Triggers, (i64, i64)>>)
    ensures
        match r {
            None => triggers_tax(key@) is None,
            Some(Ok(t)) => ({
                &&& triggers_tax(key@) matches Some((k, lo, hi)) && value_ok(k, lo, hi, key@, value@)
                &&& triggers_key_match(t, key@)
                &&& triggers_value_match(t, value@)
            }),
            Some(Err((lo, hi))) => ({
                &&& triggers_tax(key@) matches Some((k, l, h)) && l == lo && h == hi && !value_ok(
                    k, l, h, key@, value@)
            }),
        },
{
    proof {
        assert(value@.subrange(0, value@.len() as int) =~= value@);
        reveal_strlit("trigger");
        reveal_strlit("off_mode");
        reveal_strlit("loop_mode");
        reveal_strlit("direction");
        reveal_strlit("fil_type");
        reveal_strlit("xf_keycurve");
        assert("trigger"@[0] == 't');
        assert("off_mode"@[0] == 'o');
        assert("loop_mode"@[0] == 'l');
        assert("direction"@[0] == 'd');
        assert("fil_type"@[0] == 'f');
        assert("xf_keycurve"@[0] == 'x');
        reveal_strlit("attack");
        reveal_strlit("first");
        reveal_strlit("legato");
        reveal_strlit("on_hicc");
        reveal_strlit("on_locc");
        reveal_strlit("release");
        reveal_strlit("release_key");
        reveal_strlit("trigger");
    }
    if chars_eq_lit(key, "trigger") {
        return Some(if chars_eq_lit(value, "attack") || chars_eq_lit(value, "release") || chars_eq_lit(value, "first") || chars_eq_lit(value, "legato") || chars_eq_lit(value, "release_key") {
            Ok(Triggers::Trigger(clone_chars(value)))
        } else {
            Err((0i64, 0i64))
        });
    }
    match cc_suffix(key, "on_locc") {
        Some(idx) => {
            return Some(match parse_int(value, 0, value.len()) {
                Some(n) => if 0 <= n && n <= 127 {
                    Ok(Triggers::OnLowCC(idx, n as u8))
                } else {
                    Err((0i64, 127i64))
                },
                None => Err((0i64, 127i64)),
            });
        },
        None => {},
    }
    match cc_suffix(key, "on_hicc") {
        Some(idx) => {
            return Some(match parse_int(value, 0, value.len()) {
                Some(n) => if 0 <= n && n <= 127 {
                    Ok(Triggers::OnHighCC(idx, n as u8))
                } else {
                    Err((0i64, 127i64))
                },
                None => Err((0i64, 127i64)),
            });
        },
        None => {},
    }
    None
}

/// Table entries for [`VoiceLifecycle`] keys.
pub open spec fn voice_lifecycle_tax(key: Seq<char>) -> Option<(VKind, int, int)> {
    if key == "group"@ {
        Some((VKind::VInt, -1, 2147483647))
    } else if key == "off_by"@ {
        Some((VKind::VInt, -1, 2147483647))
    } else if key == "off_mode"@ {
        Some((VKind::VName, 0, 0))
    } else if key == "output"@ {
        Some((VKind::VInt, 0, 1024))
    } else if key == "note_polyphony"@ {
        Some((VKind::VInt, 1, 100))
    } else {
        None
    }
}

/// Which key each [`VoiceLifecycle`] variant classifies.
pub open spec fn voice_lifecycle_key_match(t: VoiceLifecycle, key: Seq<char>) -> bool {
    match t {
        VoiceLifecycle::Group(_) => key == "group"@,
        VoiceLifecycle::OffBy(_) => key == "off_by"@,
        VoiceLifecycle::OffMode(_) => key == "off_mode"@,
        VoiceLifecycle::Output(_) => key == "output"@,
        VoiceLifecycle::NotePolyphony(_) => key == "note_polyphony"@,
    }
}

/// The value each [`VoiceLifecycle`] variant carries, against the raw text.
pub open spec fn voice_lifecycle_value_match(t: VoiceLifecycle, value: Seq<char>) -> bool {
    match t {
        VoiceLifecycle::Group(n) => parse_int_spec(value) == Some(n as int),
        VoiceLifecycle::OffBy(n) => parse_int_spec(value) == Some(n as int),
        VoiceLifecycle::OffMode(v) => v@ == value,
        VoiceLifecycle::Output(n) => parse_int_spec(value) == Some(n as int),
        VoiceLifecycle::NotePolyphony(n) => parse_int_spec(value) == Some(n as int),
    }
}

/// Classifies a raw pair against the [`VoiceLifecycle`] entries.
pub fn classify_voice_lifecycle(key: &Vec<char>, value: &Vec<char>) -> (r: Option<Result<VoiceLifecycle, (i64, i64)>>)
    ensures
        match r {
            None => voice_lifecycle_tax(key@) is None,
            Some(Ok(t)) => ({
                &&& voice_lifecycle_tax(key@) matches Some((k, lo, hi)) && value_ok(k, lo, hi, key@, value@)
                &&& voice_lifecycle_key_match(t, key@)
                &&& voice_lifecycle_value_match(t, value@)
            }),
            Some(Err((lo, hi))) => ({
                &&& voice_lifecycle_tax(key@) matches Some((k, l, h)) && l == lo && h == hi && !value_ok(
                    k, l, h, key@, value@)
            }),
        },
{
    proof {
        assert(value@.subrange(0, value@.len() as int) =~= value@);
        reveal_strlit("trigger");
        reveal_strlit("off_mode");
        reveal_strlit("loop_mode");
        reveal_strlit("direction");
        reveal_strlit("fil_type");
        reveal_strlit("xf_keycurve");
        assert("trigger"@[0] == 't');
        assert("off_mode"@[0] == 'o');
        assert("loop_mode"@[0] == 'l');
        assert("direction"@[0] == 'd');
        assert("fil_type"@[0] == 'f');
        assert("xf_keycurve"@[0] == 'x');
        reveal_strlit("fast");
        reveal_strlit("group");
        reveal_strlit("normal");
        reveal_strlit("note_polyphony");
        reveal_strlit("off_by");
        reveal_strlit("off_mode");
        reveal_strlit("output");
        reveal_strlit("time");
    }
    if chars_eq_lit(key, "group") {
        return Some(match parse_int(value, 0, value.len()) {
            Some(n) => if -1 <= n && n <= 2147483647 {
                Ok(VoiceLifecycle::Group(n as i32))
            } else {
                Err((-1i64, 2147483647i64))
            },
            None => Err((-1i64, 2147483647i64)),
        });
    }
    if chars_eq_lit(key, "off_by") {
        return Some(match parse_int(value, 0, value.len()) {
            Some(n) => if -1 <= n && n <= 2147483647 {
                Ok(VoiceLifecycle::OffBy(n as i32))
            } else {
                Err((-1i64, 2147483647i64))
            },
            None => Err((-1i64, 2147483647i64)),
        });
    }
    if chars_eq_lit(key, "off_mode") {
        return Some(if chars_eq_lit(value, "fast") || chars_eq_lit(value, "normal") || chars_eq_lit(value, "time") {
            Ok(VoiceLifecycle::OffMode(clone_chars(value)))
        } else {
            Err((0i64, 0i64))
        });
    }
    if chars_eq_lit(key, "output") {
        return Some(match parse_int(value, 0, value.len()) {
            Some(n) => if 0 <= n && n <= 1024 {
                Ok(VoiceLifecycle::Output(n as u16))
            } else {
                Err((0i64, 1024i64))
            },
            None => Err((0i64, 1024i64)),
        });
    }
    if chars_eq_lit(key, "note_polyphony") {
        return Some(match parse_int(value, 0, value.len()) {
            Some(n) => if 1 <= n && n <= 100 {
                Ok(VoiceLifecycle::NotePolyphony(n as u32))
            } else {
                Err((1i64, 100i64))
            },
            None => Err((1i64, 100i64)),
        });
    }
    None
}

/// Table entries for [`SamplePlayback`] keys.
pub open spec fn sample_playback_tax(key: Seq<char>) -> Option<(VKind, int, int)> {
    if key == "sample"@ {
        Some((VKind::VText, 0, 0))
    } else if key == "delay"@ {
        Some((VKind::VDec, 0, 100))
    } else if key == "delay_random"@ {
        Some((VKind::VDec, 0, 100))
    } else if key == "offset"@ {
        Some((VKind::VInt, 0, 4294967295))
    } else if key == "offset_random"@ {
        Some((VKind::VInt, 0, 4294967295))
    } else if key == "end"@ {
        Some((VKind::VInt, 0, 4294967295))
    } else if key == "count"@ {
        Some((VKind::VInt, 0, 4294967295))
    } else if key == "loop_mode"@ {
        Some((VKind::VName, 0, 0))
    } else if key == "loop_start"@ {
        Some((VKind::VInt, 0, 4294967295))
    } else if key == "loop_end"@ {
        Some((VKind::VInt, 0, 4294967295))
    } else if key == "loop_crossfade"@ {
        Some((VKind::VDec, 0, 32))
    } else if key == "direction"@ {
        Some((VKind::VName, 0, 0))
    } else {
        None
    }
}

/// Which key each [`SamplePlayback`] variant classifies.
pub open spec fn sample_playback_key_match(t: SamplePlayback, key: Seq<char>) -> bool {
    match t {
        SamplePlayback::Sample(_) => key == "sample"@,
        SamplePlayback::Delay(_) => key == "delay"@,
        SamplePlayback::DelayRandom(_) => key == "delay_random"@,
        SamplePlayback::Offset(_) => key == "offset"@,
        SamplePlayback::OffsetRandom(_) => key == "offset_random"@,
        SamplePlayback::End(_) => key == "end"@,
        SamplePlayback::Count(_) => key == "count"@,
        SamplePlayback::LoopMode(_) => key == "loop_mode"@,
        SamplePlayback::LoopStart(_) => key == "loop_start"@,
        SamplePlayback::LoopEnd(_) => key == "loop_end"@,
        SamplePlayback::LoopCrossfade(_) => key == "loop_crossfade"@,
        SamplePlayback::Direction(_) => key == "direction"@,
    }
}

/// The value each [`SamplePlayback`] variant carries, against the raw text.
pub open spec fn sample_playback_value_match(t: SamplePlayback, value: Seq<char>) -> bool {
    match t {
        SamplePlayback::Sample(v) => v@ == value,
        SamplePlayback::Delay(d) => parse_dec_spec(value) == Some(d),
        SamplePlayback::DelayRandom(d) => parse_dec_spec(value) == Some(d),
        SamplePlayback::Offset(n) => parse_int_spec(value) == Some(n as int),
        SamplePlayback::OffsetRandom(n) => parse_int_spec(value) == Some(n as int),
        SamplePlayback::End(n) => parse_int_spec(value) == Some(n as int),
        SamplePlayback::Count(n) => parse_int_spec(value) == Some(n as int),
        SamplePlayback::LoopMode(v) => v@ == value,
        SamplePlayback::LoopStart(n) => parse_int_spec(value) == Some(n as int),
        SamplePlayback::LoopEnd(n) => parse_int_spec(value) == Some(n as int),
        SamplePlayback::LoopCrossfade(d) => parse_dec_spec(value) == Some(d),
        SamplePlayback::Direction(v) => v@ == value,
    }
}

/// Classifies a raw pair against the [`SamplePlayback`] entries.
pub fn classify_sample_playback(key: &Vec<char>, value: &Vec<char>) -> (r: Option<Result<SamplePlayback, (i64, i64)>>)
    ensures
        match r {
            None => sample_playback_tax(key@) is None,
            Some(Ok(t)) => ({
                &&& sample_playback_tax(key@) matches Some((k, lo, hi)) && value_ok(k, lo, hi, key@, value@)
                &&& sample_playback_key_match(t, key@)
                &&& sample_playback_value_match(t, value@)
            }),
            Some(Err((lo, hi))) => ({
                &&& sample_playback_tax(key@) matches Some((k, l, h)) && l == lo && h == hi && !value_ok(
                    k, l, h, key@, value@)
            }),
        },
{
    proof {
        assert(value@.subrange(0, value@.len() as int) =~= value@);
        reveal_strlit("trigger");
        reveal_strlit("off_mode");
        reveal_strlit("loop_mode");
        reveal_strlit("direction");
        reveal_strlit("fil_type");
        reveal_strlit("xf_keycurve");
        assert("trigger"@[0] == 't');
        assert("off_mode"@[0] == 'o');
        assert("loop_mode"@[0] == 'l');
        assert("direction"@[0] == 'd');
        assert("fil_type"@[0] == 'f');
        assert("xf_keycurve"@[0] == 'x');
        reveal_strlit("count");
        reveal_strlit("delay");
        reveal_strlit("delay_random");
        reveal_strlit("direction");
        reveal_strlit("end");
        reveal_strlit("forward");
        reveal_strlit("loop_continuous");
        reveal_strlit("loop_crossfade");
        reveal_strlit("loop_end");
        reveal_strlit("loop_mode");
        reveal_strlit("loop_start");
        reveal_strlit("loop_sustain");
        reveal_strlit("no_loop");
        reveal_strlit("offset");
        reveal_strlit("offset_random");
        reveal_strlit("one_shot");
        reveal_strlit("reverse");
        reveal_strlit("sample");
    }
    if chars_eq_lit(key, "sample") {
        return Some(Ok(SamplePlayback::Sample(clone_chars(value))));
    }
    if chars_eq_lit(key, "delay") {
        return Some(match parse_dec(value, 0, value.len()) {
            Some(d) => if dec_in_range(&d, 0, 100) {
                Ok(SamplePlayback::Delay(d))
            } else {
                Err((0i64, 100i64))
            },
            None => Err((0i64, 100i64)),
        });
    }
    if chars_eq_lit(key, "delay_random") {
        return Some(match parse_dec(value, 0, value.len()) {
            Some(d) => if dec_in_range(&d, 0, 100) {
                Ok(SamplePlayback::DelayRandom(d))
            } else {
                Err((0i64, 100i64))
            },
            None => Err((0i64, 100i64)),
        });
    }
    if chars_eq_lit(key, "offset") {
        return Some(match parse_int(value, 0, value.len()) {
            Some(n) => if 0 <= n && n <= 4294967295 {
                Ok(SamplePlayback::Offset(n as u32))
            } else {
                Err((0i64, 4294967295i64))
            },
            None => Err((0i64, 4294967295i64)),
        });
    }
    if chars_eq_lit(key, "offset_random") {
        return Some(match parse_int(value, 0, value.len()) {
            Some(n) => if 0 <= n && n <= 4294967295 {
                Ok(SamplePlayback::OffsetRandom(n as u32))
            } else {
                Err((0i64, 4294967295i64))
            },
            None => Err((0i64, 4294967295i64)),
        });
    }
    if chars_eq_lit(key, "end") {
        return Some(match parse_int(value, 0, value.len()) {
            Some(n) => if 0 <= n && n <= 4294967295 {
                Ok(SamplePlayback::End(n as u32))
            } else {
                Err((0i64, 4294967295i64))
            },
            None => Err((0i64, 4294967295i64)),
        });
    }
    if chars_eq_lit(key, "count") {
        return Some(match parse_int(value, 0, value.len()) {
            Some(n) => if 0 <= n && n <= 4294967295 {
                Ok(SamplePlayback::Count(n as u32))
            } else {
                Err((0i64, 4294967295i64))
            },
            None => Err((0i64, 4294967295i64)),
        });
    }
    if chars_eq_lit(key, "loop_mode") {
        return Some(if chars_eq_lit(value, "no_loop") || chars_eq_lit(value, "one_shot") || chars_eq_lit(value, "loop_continuous") || chars_eq_lit(value, "loop_sustain") {
            Ok(SamplePlayback::LoopMode(clone_chars(value)))
        } else {
            Err((0i64, 0i64))
        });
    }
    if chars_eq_lit(key, "loop_start") {
        return Some(match parse_int(value, 0, value.len()) {
            Some(n) => if 0 <= n && n <= 4294967295 {
                Ok(SamplePlayback::LoopStart(n as u32))
            } else {
                Err((0i64, 4294967295i64))
            },
            None => Err((0i64, 4294967295i64)),
        });
    }
    if chars_eq_lit(key, "loop_end") {
        return Some(match parse_int(value, 0, value.len()) {
            Some(n) => if 0 <= n && n <= 4294967295 {
                Ok(SamplePlayback::LoopEnd(n as u32))
            } else {
                Err((0i64, 4294967295i64))
            },
            None => Err((0i64, 4294967295i64)),
        });
    }
    if chars_eq_lit(key, "loop_crossfade") {
        return Some(match parse_dec(value, 0, value.len()) {
            Some(d) => if dec_in_range(&d, 0, 32) {
                Ok(SamplePlayback::LoopCrossfade(d))
            } else {
                Err((0i64, 32i64))
            },
            None => Err((0i64, 32i64)),
        });
    }
    if chars_eq_lit(key, "direction") {
        return Some(if chars_eq_lit(value, "forward") || chars_eq_lit(value, "reverse") {
            Ok(SamplePlayback::Direction(clone_chars(value)))
        } else {
            Err((0i64, 0i64))
        });
    }
    None
}

/// Table entries for [`InstrumentSettings`] keys.
pub open spec fn instrument_settings_tax(key: Seq<char>) -> Option<(VKind, int, int)> {
    if key == "global_label"@ {
        Some((VKind::VText, 0, 0))
    } else if key == "master_label"@ {
        Some((VKind::VText, 0, 0))
    } else if key == "group_label"@ {
        Some((VKind::VText, 0, 0))
    } else if key == "region_label"@ {
        Some((VKind::VText, 0, 0))
    } else {
        None
    }
}

/// Which key each [`InstrumentSettings`] variant classifies.
pub open spec fn instrument_settings_key_match(t: InstrumentSettings, key: Seq<char>) -> bool {
    match t {
        InstrumentSettings::GlobalLabel(_) => key == "global_label"@,
        InstrumentSettings::MasterLabel(_) => key == "master_label"@,
        InstrumentSettings::GroupLabel(_) => key == "group_label"@,
        InstrumentSettings::RegionLabel(_) => key == "region_label"@,
    }
}

/// The value each [`InstrumentSettings`] variant carries, against the raw text.
pub open spec fn instrument_settings_value_match(t: InstrumentSettings, value: Seq<char>) -> bool {
    match t {
        InstrumentSettings::GlobalLabel(v) => v@ == value,
        InstrumentSettings::MasterLabel(v) => v@ == value,
        InstrumentSettings::GroupLabel(v) => v@ == value,
        InstrumentSettings::RegionLabel(v) => v@ == value,
    }
}

/// Classifies a raw pair against the [`InstrumentSettings`] entries.
pub fn classify_instrument_settings(key: &Vec<char>, value: &Vec<char>) -> (r: Option<Result<InstrumentSettings, (i64, i64)>>)
    ensures
        match r {
            None => instrument_settings_tax(key@) is None,
            Some(Ok(t)) => ({
                &&& instrument_settings_tax(key@) matches Some((k, lo, hi)) && value_ok(k, lo, hi, key@, value@)
                &&& instrument_settings_key_match(t, key@)
                &&& instrument_settings_value_match(t, value@)
            }),
            Some(Err((lo, hi))) => ({
                &&& instrument_settings_tax(key@) matches Some((k, l, h)) && l == lo && h == hi && !value_ok(
                    k, l, h, key@, value@)
            }),
        },
{
    proof {
        assert(value@.subrange(0, value@.len() as int) =~= value@);
        reveal_strlit("trigger");
        reveal_strlit("off_mode");
        reveal_strlit("loop_mode");
        reveal_strlit("direction");
        reveal_strlit("fil_type");
        reveal_strlit("xf_keycurve");
        assert("trigger"@[0] == 't');
        assert("off_mode"@[0] == 'o');
        assert("loop_mode"@[0] == 'l');
        assert("direction"@[0] == 'd');
        assert("fil_type"@[0] == 'f');
        assert("xf_keycurve"@[0] == 'x');
        reveal_strlit("global_label");
        reveal_strlit("group_label");
        reveal_strlit("master_label");
        reveal_strlit("region_label");
    }
    if chars_eq_lit(key, "global_label") {
        return Some(Ok(InstrumentSettings::GlobalLabel(clone_chars(value))));
    }
    if chars_eq_lit(key, "master_label") {
        return Some(Ok(InstrumentSettings::MasterLabel(clone_chars(value))));
    }
    if chars_eq_lit(key, "group_label") {
        return Some(Ok(InstrumentSettings::GroupLabel(clone_chars(value))));
    }
    if chars_eq_lit(key, "region_label") {
        return Some(Ok(InstrumentSettings::RegionLabel(clone_chars(value))));
    }
    None
}

/// Table entries for [`PitchParameter`] keys.
pub open spec fn pitch_parameter_tax(key: Seq<char>) -> Option<(VKind, int, int)> {
    if key == "transpose"@ {
        Some((VKind::VInt, 0, 127))
    } else if key == "tune"@ {
        Some((VKind::VInt, 0, 100))
    } else if key == "pitch_keycenter"@ {
        Some((VKind::VInt, 0, 127))
    } else if key == "pitch_keytrack"@ {
        Some((VKind::VInt, 0, 1200))
    } else if key == "pitch_veltrack"@ {
        Some((VKind::VInt, 0, 9600))
    } else if key == "pitch_random"@ {
        Some((VKind::VInt, 0, 9600))
    } else if key == "bend_up"@ {
        Some((VKind::VInt, 0, 9600))
    } else if key == "bend_down"@ {
        Some((VKind::VInt, 0, 9600))
    } else if key == "bend_step"@ {
        Some((VKind::VInt, 1, 1200))
    } else {
        None
    }
}

/// Which key each [`PitchParameter`] variant classifies.
pub open spec fn pitch_parameter_key_match(t: PitchParameter, key: Seq<char>) -> bool {
    match t {
        PitchParameter::Transpose(_) => key == "transpose"@,
        PitchParameter::Tune(_) => key == "tune"@,
        PitchParameter::KeyCenter(_) => key == "pitch_keycenter"@,
        PitchParameter::KeyTrack(_) => key == "pitch_keytrack"@,
        PitchParameter::VelTrack(_) => key == "pitch_veltrack"@,
        PitchParameter::Random(_) => key == "pitch_random"@,
        PitchParameter::BendUp(_) => key == "bend_up"@,
        PitchParameter::BendDown(_) => key == "bend_down"@,
        PitchParameter::BendStep(_) => key == "bend_step"@,
    }
}

/// The value each [`PitchParameter`] variant carries, against the raw text.
pub open spec fn pitch_parameter_value_match(t: PitchParameter, value: Seq<char>) -> bool {
    match t {
        PitchParameter::Transpose(n) => parse_int_spec(value) == Some(n as int),
        PitchParameter::Tune(n) => parse_int_spec(value) == Some(n as int),
        PitchParameter::KeyCenter(n) => parse_int_spec(value) == Some(n as int),
        PitchParameter::KeyTrack(n) => parse_int_spec(value) == Some(n as int),
        PitchParameter::VelTrack(n) => parse_int_spec(value) == Some(n as int),
        PitchParameter::Random(n) => parse_int_spec(value) == Some(n as int),
        PitchParameter::BendUp(n) => parse_int_spec(value) == Some(n as int),
        PitchParameter::BendDown(n) => parse_int_spec(value) == Some(n as int),
        PitchParameter::BendStep(n) => parse_int_spec(value) == Some(n as int),
    }
}

/// Classifies a raw pair against the [`PitchParameter`] entries.
pub fn classify_pitch_parameter(key: &Vec<char>, value: &Vec<char>) -> (r: Option<Result<PitchParameter, (i64, i64)>>)
    ensures
        match r {
            None => pitch_parameter_tax(key@) is None,
            Some(Ok(t)) => ({
                &&& pitch_parameter_tax(key@) matches Some((k, lo, hi)) && value_ok(k, lo, hi, key@, value@)
                &&& pitch_parameter_key_match(t, key@)
                &&& pitch_parameter_value_match(t, value@)
            }),
            Some(Err((lo, hi))) => ({
                &&& pitch_parameter_tax(key@) matches Some((k, l, h)) && l == lo && h == hi && !value_ok(
                    k, l, h, key@, value@)
            }),
        },
{
    proof {
        assert(value@.subrange(0, value@.len() as int) =~= value@);
        reveal_strlit("trigger");
        reveal_strlit("off_mode");
        reveal_strlit("loop_mode");
        reveal_strlit("direction");
        reveal_strlit("fil_type");
        reveal_strlit("xf_keycurve");
        assert("trigger"@[0] == 't');
        assert("off_mode"@[0] == 'o');
        assert("loop_mode"@[0] == 'l');
        assert("direction"@[0] == 'd');
        assert("fil_type"@[0] == 'f');
        assert("xf_keycurve"@[0] == 'x');
        reveal_strlit("bend_down");
        reveal_strlit("bend_step");
        reveal_strlit("bend_up");
        reveal_strlit("pitch_keycenter");
        reveal_strlit("pitch_keytrack");
        reveal_strlit("pitch_random");
        reveal_strlit("pitch_veltrack");
        reveal_strlit("transpose");
        reveal_strlit("tune");
    }
    if chars_eq_lit(key, "transpose") {
        return Some(match parse_int(value, 0, value.len()) {
            Some(n) => if 0 <= n && n <= 127 {
                Ok(PitchParameter::Transpose(n as u8))
            } else {
                Err((0i64, 127i64))
            },
            None => Err((0i64, 127i64)),
        });
    }
    if chars_eq_lit(key, "tune") {
        return Some(match parse_int(value, 0, value.len()) {
            Some(n) => if 0 <= n && n <= 100 {
                Ok(PitchParameter::Tune(n as u8))
            } else {
                Err((0i64, 100i64))
            },
            None => Err((0i64, 100i64)),
        });
    }
    if chars_eq_lit(key, "pitch_keycenter") {
        return Some(match parse_int(value, 0, value.len()) {
            Some(n) => if 0 <= n && n <= 127 {
                Ok(PitchParameter::KeyCenter(n as u8))
            } else {
                Err((0i64, 127i64))
            },
            None => Err((0i64, 127i64)),
        });
    }
    if chars_eq_lit(key, "pitch_keytrack") {
        return Some(match parse_int(value, 0, value.len()) {
            Some(n) => if 0 <= n && n <= 1200 {
                Ok(PitchParameter::KeyTrack(n as u16))
            } else {
                Err((0i64, 1200i64))
            },
            None => Err((0i64, 1200i64)),
        });
    }
    if chars_eq_lit(key, "pitch_veltrack") {
        return Some(match parse_int(value, 0, value.len()) {
            Some(n) => if 0 <= n && n <= 9600 {
                Ok(PitchParameter::VelTrack(n as u16))
            } else {
                Err((0i64, 9600i64))
            },
            None => Err((0i64, 9600i64)),
        });
    }
    if chars_eq_lit(key, "pitch_random") {
        return Some(match parse_int(value, 0, value.len()) {
            Some(n) => if 0 <= n && n <= 9600 {
                Ok(PitchParameter::Random(n as u16))
            } else {
                Err((0i64, 9600i64))
            },
            None => Err((0i64, 9600i64)),
        });
    }
    if chars_eq_lit(key, "bend_up") {
        return Some(match parse_int(value, 0, value.len()) {
            Some(n) => if 0 <= n && n <= 9600 {
                Ok(PitchParameter::BendUp(n as u16))
            } else {
                Err((0i64, 9600i64))
            },
            None => Err((0i64, 9600i64)),
        });
    }
    if chars_eq_lit(key, "bend_down") {
        return Some(match parse_int(value, 0, value.len()) {
            Some(n) => if 0 <= n && n <= 9600 {
                Ok(PitchParameter::BendDown(n as u16))
            } else {
                Err((0i64, 9600i64))
            },
            None => Err((0i64, 9600i64)),
        });
    }
    if chars_eq_lit(key, "bend_step") {
        return Some(match parse_int(value, 0, value.len()) {
            Some(n) => if 1 <= n && n <= 1200 {
                Ok(PitchParameter::BendStep(n as u16))
            } else {
                Err((1i64, 1200i64))
            },
            None => Err((1i64, 1200i64)),
        });
    }
    None
}

/// Table entries for [`PitchEGParameter`] keys.
pub open spec fn pitch_e_g_parameter_tax(key: Seq<char>) -> Option<(VKind, int, int)> {
    if key == "pitcheg_delay"@ {
        Some((VKind::VDec, 0, 100))
    } else if key == "pitcheg_start"@ {
        Some((VKind::VDec, 0, 100))
    } else if key == "pitcheg_attack"@ {
        Some((VKind::VDec, 0, 100))
    } else if key == "pitcheg_hold"@ {
        Some((VKind::VDec, 0, 100))
    } else if key == "pitcheg_decay"@ {
        Some((VKind::VDec, 0, 100))
    } else if key == "pitcheg_sustain"@ {
        Some((VKind::VDec, 0, 100))
    } else if key == "pitcheg_release"@ {
        Some((VKind::VDec, 0, 100))
    } else if key == "pitcheg_depth"@ {
        Some((VKind::VInt, -12000, 12000))
    } else {
        None
    }
}

/// Which key each [`PitchEGParameter`] variant classifies.
pub open spec fn pitch_e_g_parameter_key_match(t: PitchEGParameter, key: Seq<char>) -> bool {
    match t {
        PitchEGParameter::Delay(_) => key == "pitcheg_delay"@,
        PitchEGParameter::Start(_) => key == "pitcheg_start"@,
        PitchEGParameter::Attack(_) => key == "pitcheg_attack"@,
        PitchEGParameter::Hold(_) => key == "pitcheg_hold"@,
        PitchEGParameter::Decay(_) => key == "pitcheg_decay"@,
        PitchEGParameter::Sustain(_) => key == "pitcheg_sustain"@,
        PitchEGParameter::Release(_) => key == "pitcheg_release"@,
        PitchEGParameter::Depth(_) => key == "pitcheg_depth"@,
    }
}

/// The value each [`PitchEGParameter`] variant carries, against the raw text.
pub open spec fn pitch_e_g_parameter_value_match(t: PitchEGParameter, value: Seq<char>) -> bool {
    match t {
        PitchEGParameter::Delay(d) => parse_dec_spec(value) == Some(d),
        PitchEGParameter::Start(d) => parse_dec_spec(value) == Some(d),
        PitchEGParameter::Attack(d) => parse_dec_spec(value) == Some(d),
        PitchEGParameter::Hold(d) => parse_dec_spec(value) == Some(d),
        PitchEGParameter::Decay(d) => parse_dec_spec(value) == Some(d),
        PitchEGParameter::Sustain(d) => parse_dec_spec(value) == Some(d),
        PitchEGParameter::Release(d) => parse_dec_spec(value) == Some(d),
        PitchEGParameter::Depth(n) => parse_int_spec(value) == Some(n as int),
    }
}

/// Classifies a raw pair against the [`PitchEGParameter`] entries.
pub fn classify_pitch_e_g_parameter(key: &Vec<char>, value: &Vec<char>) -> (r: Option<Result<PitchEGParameter, (i64, i64)>>)
    ensures
        match r {
            None => pitch_e_g_parameter_tax(key@) is None,
            Some(Ok(t)) => ({
                &&& pitch_e_g_parameter_tax(key@) matches Some((k, lo, hi)) && value_ok(k, lo, hi, key@, value@)
                &&& pitch_e_g_parameter_key_match(t, key@)
                &&& pitch_e_g_parameter_value_match(t, value@)
            }),
            Some(Err((lo, hi))) => ({
                &&& pitch_e_g_parameter_tax(key@) matches Some((k, l, h)) && l == lo && h == hi && !value_ok(
                    k, l, h, key@, value@)
            }),
        },
{
    proof {
        assert(value@.subrange(0, value@.len() as int) =~= value@);
        reveal_strlit("trigger");
        reveal_strlit("off_mode");
        reveal_strlit("loop_mode");
        reveal_strlit("direction");
        reveal_strlit("fil_type");
        reveal_strlit("xf_keycurve");
        assert("trigger"@[0] == 't');
        assert("off_mode"@[0] == 'o');
        assert("loop_mode"@[0] == 'l');
        assert("direction"@[0] == 'd');
        assert("fil_type"@[0] == 'f');
        assert("xf_keycurve"@[0] == 'x');
        reveal_strlit("pitcheg_attack");
        reveal_strlit("pitcheg_decay");
        reveal_strlit("pitcheg_delay");
        reveal_strlit("pitcheg_depth");
        reveal_strlit("pitcheg_hold");
        reveal_strlit("pitcheg_release");
        reveal_strlit("pitcheg_start");
        reveal_strlit("pitcheg_sustain");
    }
    if chars_eq_lit(key, "pitcheg_delay") {
        return Some(match parse_dec(value, 0, value.len()) {
            Some(d) => if dec_in_range(&d, 0, 100) {
                Ok(PitchEGParameter::Delay(d))
            } else {
                Err((0i64, 100i64))
            },
            None => Err((0i64, 100i64)),
        });
    }
    if chars_eq_lit(key, "pitcheg_start") {
        return Some(match parse_dec(value, 0, value.len()) {
            Some(d) => if dec_in_range(&d, 0, 100) {
                Ok(PitchEGParameter::Start(d))
            } else {
                Err((0i64, 100i64))
            },
            None => Err((0i64, 100i64)),
        });
    }
    if chars_eq_lit(key, "pitcheg_attack") {
        return Some(match parse_dec(value, 0, value.len()) {
            Some(d) => if dec_in_range(&d, 0, 100) {
                Ok(PitchEGParameter::Attack(d))
            } else {
                Err((0i64, 100i64))
            },
            None => Err((0i64, 100i64)),
        });
    }
    if chars_eq_lit(key, "pitcheg_hold") {
        return Some(match parse_dec(value, 0, value.len()) {
            Some(d) => if dec_in_range(&d, 0, 100) {
                Ok(PitchEGParameter::Hold(d))
            } else {
                Err((0i64, 100i64))
            },
            None => Err((0i64, 100i64)),
        });
    }
    if chars_eq_lit(key, "pitcheg_decay") {
        return Some(match parse_dec(value, 0, value.len()) {
            Some(d) => if dec_in_range(&d, 0, 100) {
                Ok(PitchEGParameter::Decay(d))
            } else {
                Err((0i64, 100i64))
            },
            None => Err((0i64, 100i64)),
        });
    }
    if chars_eq_lit(key, "pitcheg_sustain") {
        return Some(match parse_dec(value, 0, value.len()) {
            Some(d) => if dec_in_range(&d, 0, 100) {
                Ok(PitchEGParameter::Sustain(d))
            } else {
                Err((0i64, 100i64))
            },
            None => Err((0i64, 100i64)),
        });
    }
    if chars_eq_lit(key, "pitcheg_release") {
        return Some(match parse_dec(value, 0, value.len()) {
            Some(d) => if dec_in_range(&d, 0, 100) {
                Ok(PitchEGParameter::Release(d))
            } else {
                Err((0i64, 100i64))
            },
            None => Err((0i64, 100i64)),
        });
    }
    if chars_eq_lit(key, "pitcheg_depth") {
        return Some(match parse_int(value, 0, value.len()) {
            Some(n) => if -12000 <= n && n <= 12000 {
                Ok(PitchEGParameter::Depth(n as i16))
            } else {
                Err((-12000i64, 12000i64))
            },
            None => Err((-12000i64, 12000i64)),
        });
    }
    None
}

/// Table entries for [`PitchLFOParameter`] keys.
pub open spec fn pitch_l_f_o_parameter_tax(key: Seq<char>) -> Option<(VKind, int, int)> {
    if key == "pitchlfo_delay"@ {
        Some((VKind::VDec, 0, 100))
    } else if key == "pitchlfo_fade"@ {
        Some((VKind::VDec, 0, 100))
    } else if key == "pitchlfo_freq"@ {
        Some((VKind::VDec, 0, 20))
    } else if key == "pitchlfo_depth"@ {
        Some((VKind::VInt, -1200, 1200))
    } else {
        None
    }
}

/// Which key each [`PitchLFOParameter`] variant classifies.
pub open spec fn pitch_l_f_o_parameter_key_match(t: PitchLFOParameter, key: Seq<char>) -> bool {
    match t {
        PitchLFOParameter::Delay(_) => key == "pitchlfo_delay"@,
        PitchLFOParameter::Fade(_) => key == "pitchlfo_fade"@,
        PitchLFOParameter::Freq(_) => key == "pitchlfo_freq"@,
        PitchLFOParameter::Depth(_) => key == "pitchlfo_depth"@,
    }
}

/// The value each [`PitchLFOParameter`] variant carries, against the raw text.
pub open spec fn pitch_l_f_o_parameter_value_match(t: PitchLFOParameter, value: Seq<char>) -> bool {
    match t {
        PitchLFOParameter::Delay(d) => parse_dec_spec(value) == Some(d),
        PitchLFOParameter::Fade(d) => parse_dec_spec(value) == Some(d),
        PitchLFOParameter::Freq(d) => parse_dec_spec(value) == Some(d),
        PitchLFOParameter::Depth(n) => parse_int_spec(value) == Some(n as int),
    }
}

/// Classifies a raw pair against the [`PitchLFOParameter`] entries.
pub fn classify_pitch_l_f_o_parameter(key: &Vec<char>, value: &Vec<char>) -> (r: Option<Result<PitchLFOParameter, (i64, i64)>>)
    ensures
        match r {
            None => pitch_l_f_o_parameter_tax(key@) is None,
            Some(Ok(t)) => ({
                &&& pitch_l_f_o_parameter_tax(key@) matches Some((k, lo, hi)) && value_ok(k, lo, hi, key@, value@)
                &&& pitch_l_f_o_parameter_key_match(t, key@)
                &&& pitch_l_f_o_parameter_value_match(t, value@)
            }),
            Some(Err((lo, hi))) => ({
                &&& pitch_l_f_o_parameter_tax(key@) matches Some((k, l, h)) && l == lo && h == hi && !value_ok(
                    k, l, h, key@, value@)
            }),
        },
{
    proof {
        assert(value@.subrange(0, value@.len() as int) =~= value@);
        reveal_strlit("trigger");
        reveal_strlit("off_mode");
        reveal_strlit("loop_mode");
        reveal_strlit("direction");
        reveal_strlit("fil_type");
        reveal_strlit("xf_keycurve");
        assert("trigger"@[0] == 't');
        assert("off_mode"@[0] == 'o');
        assert("loop_mode"@[0] == 'l');
        assert("direction"@[0] == 'd');
        assert("fil_type"@[0] == 'f');
        assert("xf_keycurve"@[0] == 'x');
        reveal_strlit("pitchlfo_delay");
        reveal_strlit("pitchlfo_depth");
        reveal_strlit("pitchlfo_fade");
        reveal_strlit("pitchlfo_freq");
    }
    if chars_eq_lit(key, "pitchlfo_delay") {
        return Some(match parse_dec(value, 0, value.len()) {
            Some(d) => if dec_in_range(&d, 0, 100) {
                Ok(PitchLFOParameter::Delay(d))
            } else {
                Err((0i64, 100i64))
            },
            None => Err((0i64, 100i64)),
        });
    }
    if chars_eq_lit(key, "pitchlfo_fade") {
        return Some(match parse_dec(value, 0, value.len()) {
            Some(d) => if dec_in_range(&d, 0, 100) {
                Ok(PitchLFOParameter::Fade(d))
            } else {
                Err((0i64, 100i64))
            },
            None => Err((0i64, 100i64)),
        });
    }
    if chars_eq_lit(key, "pitchlfo_freq") {
        return Some(match parse_dec(value, 0, value.len()) {
            Some(d) => if dec_in_range(&d, 0, 20) {
                Ok(PitchLFOParameter::Freq(d))
            } else {
                Err((0i64, 20i64))
            },
            None => Err((0i64, 20i64)),
        });
    }
    if chars_eq_lit(key, "pitchlfo_depth") {
        return Some(match parse_int(value, 0, value.len()) {
            Some(n) => if -1200 <= n && n <= 1200 {
                Ok(PitchLFOParameter::Depth(n as i16))
            } else {
                Err((-1200i64, 1200i64))
            },
            None => Err((-1200i64, 1200i64)),
        });
    }
    None
}

/// Table entries for [`FilterParameter`] keys.
pub open spec fn filter_parameter_tax(key: Seq<char>) -> Option<(VKind, int, int)> {
    if key == "fil_type"@ {
        Some((VKind::VName, 0, 0))
    } else if key == "cutoff"@ {
        Some((VKind::VDec, 0, 20000))
    } else if key == "resonance"@ {
        Some((VKind::VDec, 0, 40))
    } else if key == "fil_keytrack"@ {
        Some((VKind::VInt, 0, 1200))
    } else if key == "fil_keycenter"@ {
        Some((VKind::VInt, 0, 127))
    } else if key == "fil_veltrack"@ {
        Some((VKind::VInt, 0, 9600))
    } else if key == "fil_random"@ {
        Some((VKind::VInt, 0, 9600))
    } else {
        None
    }
}

/// Which key each [`FilterParameter`] variant classifies.
pub open spec fn filter_parameter_key_match(t: FilterParameter, key: Seq<char>) -> bool {
    match t {
        FilterParameter::FilType(_) => key == "fil_type"@,
        FilterParameter::Cutoff(_) => key == "cutoff"@,
        FilterParameter::Resonance(_) => key == "resonance"@,
        FilterParameter::KeyTrack(_) => key == "fil_keytrack"@,
        FilterParameter::KeyCenter(_) => key == "fil_keycenter"@,
        FilterParameter::VelTrack(_) => key == "fil_veltrack"@,
        FilterParameter::Random(_) => key == "fil_random"@,
    }
}

/// The value each [`FilterParameter`] variant carries, against the raw text.
pub open spec fn filter_parameter_value_match(t: FilterParameter, value: Seq<char>) -> bool {
    match t {
        FilterParameter::FilType(v) => v@ == value,
        FilterParameter::Cutoff(d) => parse_dec_spec(value) == Some(d),
        FilterParameter::Resonance(d) => parse_dec_spec(value) == Some(d),
        FilterParameter::KeyTrack(n) => parse_int_spec(value) == Some(n as int),
        FilterParameter::KeyCenter(n) => parse_int_spec(value) == Some(n as int),
        FilterParameter::VelTrack(n) => parse_int_spec(value) == Some(n as int),
        FilterParameter::Random(n) => parse_int_spec(value) == Some(n as int),
    }
}

/// Classifies a raw pair against the [`FilterParameter`] entries.
#[verifier::rlimit(60)]
pub fn classify_filter_parameter(key: &Vec<char>, value: &Vec<char>) -> (r: Option<Result<FilterParameter, (i64, i64)>>)
    ensures
        match r {
            None => filter_parameter_tax(key@) is None,
            Some(Ok(t)) => ({
                &&& filter_parameter_tax(key@) matches Some((k, lo, hi)) && value_ok(k, lo, hi, key@, value@)
                &&& filter_parameter_key_match(t, key@)
                &&& filter_parameter_value_match(t, value@)
            }),
            Some(Err((lo, hi))) => ({
                &&& filter_parameter_tax(key@) matches Some((k, l, h)) && l == lo && h == hi && !value_ok(
                    k, l, h, key@, value@)
            }),
        },
{
    proof {
        assert(value@.subrange(0, value@.len() as int) =~= value@);
        reveal_strlit("trigger");
        reveal_strlit("off_mode");
        reveal_strlit("loop_mode");
        reveal_strlit("direction");
        reveal_strlit("fil_type");
        reveal_strlit("xf_keycurve");
        assert("trigger"@[0] == 't');
        assert("off_mode"@[0] == 'o');
        assert("loop_mode"@[0] == 'l');
        assert("direction"@[0] == 'd');
        assert("fil_type"@[0] == 'f');
        assert("xf_keycurve"@[0] == 'x');
        reveal_strlit("attack");
        reveal_strlit("release");
        reveal_strlit("first");
        reveal_strlit("legato");
        reveal_strlit("release_key");
        reveal_strlit("fast");
        reveal_strlit("normal");
        reveal_strlit("time");
        reveal_strlit("no_loop");
        reveal_strlit("one_shot");
        reveal_strlit("loop_continuous");
        reveal_strlit("loop_sustain");
        reveal_strlit("forward");
        reveal_strlit("reverse");
        reveal_strlit("lpf_1p");
        reveal_strlit("hpf_1p");
        reveal_strlit("lpf_2p");
        reveal_strlit("hpf_2p");
        reveal_strlit("bpf_2p");
        reveal_strlit("brf_2p");
        reveal_strlit("gain");
        reveal_strlit("power");
        reveal_strlit("bpf_2p");
        reveal_strlit("brf_2p");
        reveal_strlit("cutoff");
        reveal_strlit("fil_keycenter");
        reveal_strlit("fil_keytrack");
        reveal_strlit("fil_random");
        reveal_strlit("fil_type");
        reveal_strlit("fil_veltrack");
        reveal_strlit("hpf_1p");
        reveal_strlit("hpf_2p");
        reveal_strlit("lpf_1p");
        reveal_strlit("lpf_2p");
        reveal_strlit("resonance");
    }
    if chars_eq_lit(key, "fil_type") {
        return Some(if chars_eq_lit(value, "lpf_1p") || chars_eq_lit(value, "hpf_1p") || chars_eq_lit(value, "lpf_2p") || chars_eq_lit(value, "hpf_2p") || chars_eq_lit(value, "bpf_2p") || chars_eq_lit(value, "brf_2p") {
            Ok(FilterParameter::FilType(clone_chars(value)))
        } else {
            Err((0i64, 0i64))
        });
    }
    if chars_eq_lit(key, "cutoff") {
        return Some(match parse_dec(value, 0, value.len()) {
            Some(d) => if dec_in_range(&d, 0, 20000) {
                Ok(FilterParameter::Cutoff(d))
            } else {
                Err((0i64, 20000i64))
            },
            None => Err((0i64, 20000i64)),
        });
    }
    if chars_eq_lit(key, "resonance") {
        return Some(match parse_dec(value, 0, value.len()) {
            Some(d) => if dec_in_range(&d, 0, 40) {
                Ok(FilterParameter::Resonance(d))
            } else {
                Err((0i64, 40i64))
            },
            None => Err((0i64, 40i64)),
        });
    }
    if chars_eq_lit(key, "fil_keytrack") {
        return Some(match parse_int(value, 0, value.len()) {
            Some(n) => if 0 <= n && n <= 1200 {
                Ok(FilterParameter::KeyTrack(n as u16))
            } else {
                Err((0i64, 1200i64))
            },
            None => Err((0i64, 1200i64)),
        });
    }
    if chars_eq_lit(key, "fil_keycenter") {
        return Some(match parse_int(value, 0, value.len()) {
            Some(n) => if 0 <= n && n <= 127 {
                Ok(FilterParameter::KeyCenter(n as u8))
            } else {
                Err((0i64, 127i64))
            },
            None => Err((0i64, 127i64)),
        });
    }
    if chars_eq_lit(key, "fil_veltrack") {
        return Some(match parse_int(value, 0, value.len()) {
            Some(n) => if 0 <= n && n <= 9600 {
                Ok(FilterParameter::VelTrack(n as u16))
            } else {
                Err((0i64, 9600i64))
            },
            None => Err((0i64, 9600i64)),
        });
    }
    if chars_eq_lit(key, "fil_random") {
        return Some(match parse_int(value, 0, value.len()) {
            Some(n) => if 0 <= n && n <= 9600 {
                Ok(FilterParameter::Random(n as u16))
            } else {
                Err((0i64, 9600i64))
            },
            None => Err((0i64, 9600i64)),
        });
    }
    None
}

/// Table entries for [`FilterEGParameter`] keys.
pub open spec fn filter_e_g_parameter_tax(key: Seq<char>) -> Option<(VKind, int, int)> {
    if key == "fileg_delay"@ {
        Some((VKind::VDec, 0, 100))
    } else if key == "fileg_start"@ {
        Some((VKind::VDec, 0, 100))
    } else if key == "fileg_attack"@ {
        Some((VKind::VDec, 0, 100))
    } else if key == "fileg_hold"@ {
        Some((VKind::VDec, 0, 100))
    } else if key == "fileg_decay"@ {
        Some((VKind::VDec, 0, 100))
    } else if key == "fileg_sustain"@ {
        Some((VKind::VDec, 0, 100))
    } else if key == "fileg_release"@ {
        Some((VKind::VDec, 0, 100))
    } else if key == "fileg_depth"@ {
        Some((VKind::VInt, 0, 12000))
    } else {
        None
    }
}

/// Which key each [`FilterEGParameter`] variant classifies.
pub open spec fn filter_e_g_parameter_key_match(t: FilterEGParameter, key: Seq<char>) -> bool {
    match t {
        FilterEGParameter::Delay(_) => key == "fileg_delay"@,
        FilterEGParameter::Start(_) => key == "fileg_start"@,
        FilterEGParameter::Attack(_) => key == "fileg_attack"@,
        FilterEGParameter::Hold(_) => key == "fileg_hold"@,
        FilterEGParameter::Decay(_) => key == "fileg_decay"@,
        FilterEGParameter::Sustain(_) => key == "fileg_sustain"@,
        FilterEGParameter::Release(_) => key == "fileg_release"@,
        FilterEGParameter::Depth(_) => key == "fileg_depth"@,
    }
}

/// The value each [`FilterEGParameter`] variant carries, against the raw text.
pub open spec fn filter_e_g_parameter_value_match(t: FilterEGParameter, value: Seq<char>) -> bool {
    match t {
        FilterEGParameter::Delay(d) => parse_dec_spec(value) == Some(d),
        FilterEGParameter::Start(d) => parse_dec_spec(value) == Some(d),
        FilterEGParameter::Attack(d) => parse_dec_spec(value) == Some(d),
        FilterEGParameter::Hold(d) => parse_dec_spec(value) == Some(d),
        FilterEGParameter::Decay(d) => parse_dec_spec(value) == Some(d),
        FilterEGParameter::Sustain(d) => parse_dec_spec(value) == Some(d),
        FilterEGParameter::Release(d) => parse_dec_spec(value) == Some(d),
        FilterEGParameter::Depth(n) => parse_int_spec(value) == Some(n as int),
    }
}

/// Classifies a raw pair against the [`FilterEGParameter`] entries.
pub fn classify_filter_e_g_parameter(key: &Vec<char>, value: &Vec<char>) -> (r: Option<Result<FilterEGParameter, (i64, i64)>>)
    ensures
        match r {
            None => filter_e_g_parameter_tax(key@) is None,
            Some(Ok(t)) => ({
                &&& filter_e_g_parameter_tax(key@) matches Some((k, lo, hi)) && value_ok(k, lo, hi, key@, value@)
                &&& filter_e_g_parameter_key_match(t, key@)
                &&& filter_e_g_parameter_value_match(t, value@)
            }),
            Some(Err((lo, hi))) => ({
                &&& filter_e_g_parameter_tax(key@) matches Some((k, l, h)) && l == lo && h == hi && !value_ok(
                    k, l, h, key@, value@)
            }),
        },
{
    proof {
        assert(value@.subrange(0, value@.len() as int) =~= value@);
        reveal_strlit("trigger");
        reveal_strlit("off_mode");
        reveal_strlit("loop_mode");
        reveal_strlit("direction");
        reveal_strlit("fil_type");
        reveal_strlit("xf_keycurve");
        assert("trigger"@[0] == 't');
        assert("off_mode"@[0] == 'o');
        assert("loop_mode"@[0] == 'l');
        assert("direction"@[0] == 'd');
        assert("fil_type"@[0] == 'f');
        assert("xf_keycurve"@[0] == 'x');
        reveal_strlit("fileg_attack");
        reveal_strlit("fileg_decay");
        reveal_strlit("fileg_delay");
        reveal_strlit("fileg_depth");
        reveal_strlit("fileg_hold");
        reveal_strlit("fileg_release");
        reveal_strlit("fileg_start");
        reveal_strlit("fileg_sustain");
    }
    if chars_eq_lit(key, "fileg_delay") {
        return Some(match parse_dec(value, 0, value.len()) {
            Some(d) => if dec_in_range(&d, 0, 100) {
                Ok(FilterEGParameter::Delay(d))
            } else {
                Err((0i64, 100i64))
            },
            None => Err((0i64, 100i64)),
        });
    }
    if chars_eq_lit(key, "fileg_start") {
        return Some(match parse_dec(value, 0, value.len()) {
            Some(d) => if dec_in_range(&d, 0, 100) {
                Ok(FilterEGParameter::Start(d))
            } else {
                Err((0i64, 100i64))
            },
            None => Err((0i64, 100i64)),
        });
    }
    if chars_eq_lit(key, "fileg_attack") {
        return Some(match parse_dec(value, 0, value.len()) {
            Some(d) => if dec_in_range(&d, 0, 100) {
                Ok(FilterEGParameter::Attack(d))
            } else {
                Err((0i64, 100i64))
            },
            None => Err((0i64, 100i64)),
        });
    }
    if chars_eq_lit(key, "fileg_hold") {
        return Some(match parse_dec(value, 0, value.len()) {
            Some(d) => if dec_in_range(&d, 0, 100) {
                Ok(FilterEGParameter::Hold(d))
            } else {
                Err((0i64, 100i64))
            },
            None => Err((0i64, 100i64)),
        });
    }
    if chars_eq_lit(key, "fileg_decay") {
        return Some(match parse_dec(value, 0, value.len()) {
            Some(d) => if dec_in_range(&d, 0, 100) {
                Ok(FilterEGParameter::Decay(d))
            } else {
                Err((0i64, 100i64))
            },
            None => Err((0i64, 100i64)),
        });
    }
    if chars_eq_lit(key, "fileg_sustain") {
        return Some(match parse_dec(value, 0, value.len()) {
            Some(d) => if dec_in_range(&d, 0, 100) {
                Ok(FilterEGParameter::Sustain(d))
            } else {
                Err((0i64, 100i64))
            },
            None => Err((0i64, 100i64)),
        });
    }
    if chars_eq_lit(key, "fileg_release") {
        return Some(match parse_dec(value, 0, value.len()) {
            Some(d) => if dec_in_range(&d, 0, 100) {
                Ok(FilterEGParameter::Release(d))
            } else {
                Err((0i64, 100i64))
            },
            None => Err((0i64, 100i64)),
        });
    }
    if chars_eq_lit(key, "fileg_depth") {
        return Some(match parse_int(value, 0, value.len()) {
            Some(n) => if 0 <= n && n <= 12000 {
                Ok(FilterEGParameter::Depth(n as u16))
            } else {
                Err((0i64, 12000i64))
            },
            None => Err((0i64, 12000i64)),
        });
    }
    None
}

/// Table entries for [`FilterLFOParameter`] keys.
pub open spec fn filter_l_f_o_parameter_tax(key: Seq<char>) -> Option<(VKind, int, int)> {
    if key == "fillfo_delay"@ {
        Some((VKind::VDec, 0, 100))
    } else if key == "fillfo_fade"@ {
        Some((VKind::VDec, 0, 100))
    } else if key == "fillfo_freq"@ {
        Some((VKind::VDec, 0, 20))
    } else if key == "fillfo_depth"@ {
        Some((VKind::VInt, 0, 1200))
    } else {
        None
    }
}

/// Which key each [`FilterLFOParameter`] variant classifies.
pub open spec fn filter_l_f_o_parameter_key_match(t: FilterLFOParameter, key: Seq<char>) -> bool {
    match t {
        FilterLFOParameter::Delay(_) => key == "fillfo_delay"@,
        FilterLFOParameter::Fade(_) => key == "fillfo_fade"@,
        FilterLFOParameter::Freq(_) => key == "fillfo_freq"@,
        FilterLFOParameter::Depth(_) => key == "fillfo_depth"@,
    }
}

/// The value each [`FilterLFOParameter`] variant carries, against the raw text.
pub open spec fn filter_l_f_o_parameter_value_match(t: FilterLFOParameter, value: Seq<char>) -> bool {
    match t {
        FilterLFOParameter::Delay(d) => parse_dec_spec(value) == Some(d),
        FilterLFOParameter::Fade(d) => parse_dec_spec(value) == Some(d),
        FilterLFOParameter::Freq(d) => parse_dec_spec(value) == Some(d),
        FilterLFOParameter::Depth(n) => parse_int_spec(value) == Some(n as int),
    }
}

/// Classifies a raw pair against the [`FilterLFOParameter`] entries.
pub fn classify_filter_l_f_o_parameter(key: &Vec<char>, value: &Vec<char>) -> (r: Option<Result<FilterLFOParameter, (i64, i64)>>)
    ensures
        match r {
            None => filter_l_f_o_parameter_tax(key@) is None,
            Some(Ok(t)) => ({
                &&& filter_l_f_o_parameter_tax(key@) matches Some((k, lo, hi)) && value_ok(k, lo, hi, key@, value@)
                &&& filter_l_f_o_parameter_key_match(t, key@)
                &&& filter_l_f_o_parameter_value_match(t, value@)
            }),
            Some(Err((lo, hi))) => ({
                &&& filter_l_f_o_parameter_tax(key@) matches Some((k, l, h)) && l == lo && h == hi && !value_ok(
                    k, l, h, key@, value@)
            }),
        },
{
    proof {
        assert(value@.subrange(0, value@.len() as int) =~= value@);
        reveal_strlit("trigger");
        reveal_strlit("off_mode");
        reveal_strlit("loop_mode");
        reveal_strlit("direction");
        reveal_strlit("fil_type");
        reveal_strlit("xf_keycurve");
        assert("trigger"@[0] == 't');
        assert("off_mode"@[0] == 'o');
        assert("loop_mode"@[0] == 'l');
        assert("direction"@[0] == 'd');
        assert("fil_type"@[0] == 'f');
        assert("xf_keycurve"@[0] == 'x');
        reveal_strlit("fillfo_delay");
        reveal_strlit("fillfo_depth");
        reveal_strlit("fillfo_fade");
        reveal_strlit("fillfo_freq");
    }
    if chars_eq_lit(key, "fillfo_delay") {
        return Some(match parse_dec(value, 0, value.len()) {
            Some(d) => if dec_in_range(&d, 0, 100) {
                Ok(FilterLFOParameter::Delay(d))
            } else {
                Err((0i64, 100i64))
            },
            None => Err((0i64, 100i64)),
        });
    }
    if chars_eq_lit(key, "fillfo_fade") {
        return Some(match parse_dec(value, 0, value.len()) {
            Some(d) => if dec_in_range(&d, 0, 100) {
                Ok(FilterLFOParameter::Fade(d))
            } else {
                Err((0i64, 100i64))
            },
            None => Err((0i64, 100i64)),
        });
    }
    if chars_eq_lit(key, "fillfo_freq") {
        return Some(match parse_dec(value, 0, value.len()) {
            Some(d) => if dec_in_range(&d, 0, 20) {
                Ok(FilterLFOParameter::Freq(d))
            } else {
                Err((0i64, 20i64))
            },
            None => Err((0i64, 20i64)),
        });
    }
    if chars_eq_lit(key, "fillfo_depth") {
        return Some(match parse_int(value, 0, value.len()) {
            Some(n) => if 0 <= n && n <= 1200 {
                Ok(FilterLFOParameter::Depth(n as u16))
            } else {
                Err((0i64, 1200i64))
            },
            None => Err((0i64, 1200i64)),
        });
    }
    None
}

/// Table entries for [`AmplifierParameter`] keys.
pub open spec fn amplifier_parameter_tax(key: Seq<char>) -> Option<(VKind, int, int)> {
    if key == "volume"@ {
        Some((VKind::VDec, -144, 6))
    } else if key == "pan"@ {
        Some((VKind::VDec, -100, 100))
    } else if key == "amplitude"@ {
        Some((VKind::VDec, 0, 100))
    } else if key == "width"@ {
        Some((VKind::VDec, -100, 100))
    } else if key == "position"@ {
        Some((VKind::VDec, -100, 100))
    } else if key == "amp_keytrack"@ {
        Some((VKind::VDec, -96, 12))
    } else if key == "amp_keycenter"@ {
        Some((VKind::VInt, 0, 127))
    } else if key == "amp_veltrack"@ {
        Some((VKind::VDec, -100, 100))
    } else if key == "amp_random"@ {
        Some((VKind::VDec, 0, 24))
    } else if key == "rt_decay"@ {
        Some((VKind::VDec, 0, 200))
    } else if key == "xfin_lokey"@ {
        Some((VKind::VInt, 0, 127))
    } else if key == "xfin_hikey"@ {
        Some((VKind::VInt, 0, 127))
    } else if key == "xfout_lokey"@ {
        Some((VKind::VInt, 0, 127))
    } else if key == "xfout_hikey"@ {
        Some((VKind::VInt, 0, 127))
    } else if key == "xf_keycurve"@ {
        Some((VKind::VName, 0, 0))
    } else {
        None
    }
}

/// Which key each [`AmplifierParameter`] variant classifies.
pub open spec fn amplifier_parameter_key_match(t: AmplifierParameter, key: Seq<char>) -> bool {
    match t {
        AmplifierParameter::Volume(_) => key == "volume"@,
        AmplifierParameter::Pan(_) => key == "pan"@,
        AmplifierParameter::Amplitude(_) => key == "amplitude"@,
        AmplifierParameter::Width(_) => key == "width"@,
        AmplifierParameter::Position(_) => key == "position"@,
        AmplifierParameter::AmpKeyTrack(_) => key == "amp_keytrack"@,
        AmplifierParameter::AmpKeyCenter(_) => key == "amp_keycenter"@,
        AmplifierParameter::AmpVelTrack(_) => key == "amp_veltrack"@,
        AmplifierParameter::AmpRandom(_) => key == "amp_random"@,
        AmplifierParameter::RtDecay(_) => key == "rt_decay"@,
        AmplifierParameter::CfInLowKey(_) => key == "xfin_lokey"@,
        AmplifierParameter::CfInHighKey(_) => key == "xfin_hikey"@,
        AmplifierParameter::CfOutLowKey(_) => key == "xfout_lokey"@,
        AmplifierParameter::CfOutHighKey(_) => key == "xfout_hikey"@,
        AmplifierParameter::CfKeyCurve(_) => key == "xf_keycurve"@,
    }
}

/// The value each [`AmplifierParameter`] variant carries, against the raw text.
pub open spec fn amplifier_parameter_value_match(t: AmplifierParameter, value: Seq<char>) -> bool {
    match t {
        AmplifierParameter::Volume(d) => parse_dec_spec(value) == Some(d),
        AmplifierParameter::Pan(d) => parse_dec_spec(value) == Some(d),
        AmplifierParameter::Amplitude(d) => parse_dec_spec(value) == Some(d),
        AmplifierParameter::Width(d) => parse_dec_spec(value) == Some(d),
        AmplifierParameter::Position(d) => parse_dec_spec(value) == Some(d),
        AmplifierParameter::AmpKeyTrack(d) => parse_dec_spec(value) == Some(d),
        AmplifierParameter::AmpKeyCenter(n) => parse_int_spec(value) == Some(n as int),
        AmplifierParameter::AmpVelTrack(d) => parse_dec_spec(value) == Some(d),
        AmplifierParameter::AmpRandom(d) => parse_dec_spec(value) == Some(d),
        AmplifierParameter::RtDecay(d) => parse_dec_spec(value) == Some(d),
        AmplifierParameter::CfInLowKey(n) => parse_int_spec(value) == Some(n as int),
        AmplifierParameter::CfInHighKey(n) => parse_int_spec(value) == Some(n as int),
        AmplifierParameter::CfOutLowKey(n) => parse_int_spec(value) == Some(n as int),
        AmplifierParameter::CfOutHighKey(n) => parse_int_spec(value) == Some(n as int),
        AmplifierParameter::CfKeyCurve(v) => v@ == value,
    }
}

/// Classifies a raw pair against the [`AmplifierParameter`] entries.
pub fn classify_amplifier_parameter(key: &Vec<char>, value: &Vec<char>) -> (r: Option<Result<AmplifierParameter, (i64, i64)>>)
    ensures
        match r {
            None => amplifier_parameter_tax(key@) is None,
            Some(Ok(t)) => ({
                &&& amplifier_parameter_tax(key@) matches Some((k, lo, hi)) && value_ok(k, lo, hi, key@, value@)
                &&& amplifier_parameter_key_match(t, key@)
                &&& amplifier_parameter_value_match(t, value@)
            }),
            Some(Err((lo, hi))) => ({
                &&& amplifier_parameter_tax(key@) matches Some((k, l, h)) && l == lo && h == hi && !value_ok(
                    k, l, h, key@, value@)
            }),
        },
{
    proof {
        assert(value@.subrange(0, value@.len() as int) =~= value@);
        reveal_strlit("trigger");
        reveal_strlit("off_mode");
        reveal_strlit("loop_mode");
        reveal_strlit("direction");
        reveal_strlit("fil_type");
        reveal_strlit("xf_keycurve");
        assert("trigger"@[0] == 't');
        assert("off_mode"@[0] == 'o');
        assert("loop_mode"@[0] == 'l');
        assert("direction"@[0] == 'd');
        assert("fil_type"@[0] == 'f');
        assert("xf_keycurve"@[0] == 'x');
        reveal_strlit("amp_keycenter");
        reveal_strlit("amp_keytrack");
        reveal_strlit("amp_random");
        reveal_strlit("amp_veltrack");
        reveal_strlit("amplitude");
        reveal_strlit("gain");
        reveal_strlit("pan");
        reveal_strlit("position");
        reveal_strlit("power");
        reveal_strlit("rt_decay");
        reveal_strlit("volume");
        reveal_strlit("width");
        reveal_strlit("xf_keycurve");
        assert("trigger"@[0] == 't');
        assert("off_mode"@[0] == 'o');
        assert("loop_mode"@[0] == 'l');
        assert("direction"@[0] == 'd');
        assert("fil_type"@[0] == 'f');
        assert("xf_keycurve"@[0] == 'x');
        reveal_strlit("xfin_hikey");
        reveal_strlit("xfin_lokey");
        reveal_strlit("xfout_hikey");
        reveal_strlit("xfout_lokey");
    }
    if chars_eq_lit(key, "volume") {
        return Some(match parse_dec(value, 0, value.len()) {
            Some(d) => if dec_in_range(&d, -144, 6) {
                Ok(AmplifierParameter::Volume(d))
            } else {
                Err((-144i64, 6i64))
            },
            None => Err((-144i64, 6i64)),
        });
    }
    if chars_eq_lit(key, "pan") {
        return Some(match parse_dec(value, 0, value.len()) {
            Some(d) => if dec_in_range(&d, -100, 100) {
                Ok(AmplifierParameter::Pan(d))
            } else {
                Err((-100i64, 100i64))
            },
            None => Err((-100i64, 100i64)),
        });
    }
    if chars_eq_lit(key, "amplitude") {
        return Some(match parse_dec(value, 0, value.len()) {
            Some(d) => if dec_in_range(&d, 0, 100) {
                Ok(AmplifierParameter::Amplitude(d))
            } else {
                Err((0i64, 100i64))
            },
            None => Err((0i64, 100i64)),
        });
    }
    if chars_eq_lit(key, "width") {
        return Some(match parse_dec(value, 0, value.len()) {
            Some(d) => if dec_in_range(&d, -100, 100) {
                Ok(AmplifierParameter::Width(d))
            } else {
                Err((-100i64, 100i64))
            },
            None => Err((-100i64, 100i64)),
        });
    }
    if chars_eq_lit(key, "position") {
        return Some(match parse_dec(value, 0, value.len()) {
            Some(d) => if dec_in_range(&d, -100, 100) {
                Ok(AmplifierParameter::Position(d))
            } else {
                Err((-100i64, 100i64))
            },
            None => Err((-100i64, 100i64)),
        });
    }
    if chars_eq_lit(key, "amp_keytrack") {
        return Some(match parse_dec(value, 0, value.len()) {
            Some(d) => if dec_in_range(&d, -96, 12) {
                Ok(AmplifierParameter::AmpKeyTrack(d))
            } else {
                Err((-96i64, 12i64))
            },
            None => Err((-96i64, 12i64)),
        });
    }
    if chars_eq_lit(key, "amp_keycenter") {
        return Some(match parse_int(value, 0, value.len()) {
            Some(n) => if 0 <= n && n <= 127 {
                Ok(AmplifierParameter::AmpKeyCenter(n as u8))
            } else {
                Err((0i64, 127i64))
            },
            None => Err((0i64, 127i64)),
        });
    }
    if chars_eq_lit(key, "amp_veltrack") {
        return Some(match parse_dec(value, 0, value.len()) {
            Some(d) => if dec_in_range(&d, -100, 100) {
                Ok(AmplifierParameter::AmpVelTrack(d))
            } else {
                Err((-100i64, 100i64))
            },
            None => Err((-100i64, 100i64)),
        });
    }
    if chars_eq_lit(key, "amp_random") {
        return Some(match parse_dec(value, 0, value.len()) {
            Some(d) => if dec_in_range(&d, 0, 24) {
                Ok(AmplifierParameter::AmpRandom(d))
            } else {
                Err((0i64, 24i64))
            },
            None => Err((0i64, 24i64)),
        });
    }
    if chars_eq_lit(key, "rt_decay") {
        return Some(match parse_dec(value, 0, value.len()) {
            Some(d) => if dec_in_range(&d, 0, 200) {
                Ok(AmplifierParameter::RtDecay(d))
            } else {
                Err((0i64, 200i64))
            },
            None => Err((0i64, 200i64)),
        });
    }
    if chars_eq_lit(key, "xfin_lokey") {
        return Some(match parse_int(value, 0, value.len()) {
            Some(n) => if 0 <= n && n <= 127 {
                Ok(AmplifierParameter::CfInLowKey(n as u8))
            } else {
                Err((0i64, 127i64))
            },
            None => Err((0i64, 127i64)),
        });
    }
    if chars_eq_lit(key, "xfin_hikey") {
        return Some(match parse_int(value, 0, value.len()) {
            Some(n) => if 0 <= n && n <= 127 {
                Ok(AmplifierParameter::CfInHighKey(n as u8))
            } else {
                Err((0i64, 127i64))
            },
            None => Err((0i64, 127i64)),
        });
    }
    if chars_eq_lit(key, "xfout_lokey") {
        return Some(match parse_int(value, 0, value.len()) {
            Some(n) => if 0 <= n && n <= 127 {
                Ok(AmplifierParameter::CfOutLowKey(n as u8))
            } else {
                Err((0i64, 127i64))
            },
            None => Err((0i64, 127i64)),
        });
    }
    if chars_eq_lit(key, "xfout_hikey") {
        return Some(match parse_int(value, 0, value.len()) {
            Some(n) => if 0 <= n && n <= 127 {
                Ok(AmplifierParameter::CfOutHighKey(n as u8))
            } else {
                Err((0i64, 127i64))
            },
            None => Err((0i64, 127i64)),
        });
    }
    if chars_eq_lit(key, "xf_keycurve") {
        return Some(if chars_eq_lit(value, "gain") || chars_eq_lit(value, "power") {
            Ok(AmplifierParameter::CfKeyCurve(clone_chars(value)))
        } else {
            Err((0i64, 0i64))
        });
    }
    None
}

/// Table entries for [`AmplifierEGParameter`] keys.
pub open spec fn amplifier_e_g_parameter_tax(key: Seq<char>) -> Option<(VKind, int, int)> {
    if key == "ampeg_delay"@ {
        Some((VKind::VDec, 0, 100))
    } else if key == "ampeg_start"@ {
        Some((VKind::VDec, 0, 100))
    } else if key == "ampeg_attack"@ {
        Some((VKind::VDec, 0, 100))
    } else if key == "ampeg_hold"@ {
        Some((VKind::VDec, 0, 100))
    } else if key == "ampeg_decay"@ {
        Some((VKind::VDec, 0, 100))
    } else if key == "ampeg_sustain"@ {
        Some((VKind::VDec, 0, 100))
    } else if key == "ampeg_release"@ {
        Some((VKind::VDec, 0, 100))
    } else {
        None
    }
}

/// Which key each [`AmplifierEGParameter`] variant classifies.
pub open spec fn amplifier_e_g_parameter_key_match(t: AmplifierEGParameter, key: Seq<char>) -> bool {
    match t {
        AmplifierEGParameter::Delay(_) => key == "ampeg_delay"@,
        AmplifierEGParameter::Start(_) => key == "ampeg_start"@,
        AmplifierEGParameter::Attack(_) => key == "ampeg_attack"@,
        AmplifierEGParameter::Hold(_) => key == "ampeg_hold"@,
        AmplifierEGParameter::Decay(_) => key == "ampeg_decay"@,
        AmplifierEGParameter::Sustain(_) => key == "ampeg_sustain"@,
        AmplifierEGParameter::Release(_) => key == "ampeg_release"@,
    }
}

/// The value each [`AmplifierEGParameter`] variant carries, against the raw text.
pub open spec fn amplifier_e_g_parameter_value_match(t: AmplifierEGParameter, value: Seq<char>) -> bool {
    match t {
        AmplifierEGParameter::Delay(d) => parse_dec_spec(value) == Some(d),
        AmplifierEGParameter::Start(d) => parse_dec_spec(value) == Some(d),
        AmplifierEGParameter::Attack(d) => parse_dec_spec(value) == Some(d),
        AmplifierEGParameter::Hold(d) => parse_dec_spec(value) == Some(d),
        AmplifierEGParameter::Decay(d) => parse_dec_spec(value) == Some(d),
        AmplifierEGParameter::Sustain(d) => parse_dec_spec(value) == Some(d),
        AmplifierEGParameter::Release(d) => parse_dec_spec(value) == Some(d),
    }
}

/// Classifies a raw pair against the [`AmplifierEGParameter`] entries.
pub fn classify_amplifier_e_g_parameter(key: &Vec<char>, value: &Vec<char>) -> (r: Option<Result<AmplifierEGParameter, (i64, i64)>>)
    ensures
        match r {
            None => amplifier_e_g_parameter_tax(key@) is None,
            Some(Ok(t)) => ({
                &&& amplifier_e_g_parameter_tax(key@) matches Some((k, lo, hi)) && value_ok(k, lo, hi, key@, value@)
                &&& amplifier_e_g_parameter_key_match(t, key@)
                &&& amplifier_e_g_parameter_value_match(t, value@)
            }),
            Some(Err((lo, hi))) => ({
                &&& amplifier_e_g_parameter_tax(key@) matches Some((k, l, h)) && l == lo && h == hi && !value_ok(
                    k, l, h, key@, value@)
            }),
        },
{
    proof {
        assert(value@.subrange(0, value@.len() as int) =~= value@);
        reveal_strlit("trigger");
        reveal_strlit("off_mode");
        reveal_strlit("loop_mode");
        reveal_strlit("direction");
        reveal_strlit("fil_type");
        reveal_strlit("xf_keycurve");
        assert("trigger"@[0] == 't');
        assert("off_mode"@[0] == 'o');
        assert("loop_mode"@[0] == 'l');
        assert("direction"@[0] == 'd');
        assert("fil_type"@[0] == 'f');
        assert("xf_keycurve"@[0] == 'x');
        reveal_strlit("ampeg_attack");
        reveal_strlit("ampeg_decay");
        reveal_strlit("ampeg_delay");
        reveal_strlit("ampeg_hold");
        reveal_strlit("ampeg_release");
        reveal_strlit("ampeg_start");
        reveal_strlit("ampeg_sustain");
    }
    if chars_eq_lit(key, "ampeg_delay") {
        return Some(match parse_dec(value, 0, value.len()) {
            Some(d) => if dec_in_range(&d, 0, 100) {
                Ok(AmplifierEGParameter::Delay(d))
            } else {
                Err((0i64, 100i64))
            },
            None => Err((0i64, 100i64)),
        });
    }
    if chars_eq_lit(key, "ampeg_start") {
        return Some(match parse_dec(value, 0, value.len()) {
            Some(d) => if dec_in_range(&d, 0, 100) {
                Ok(AmplifierEGParameter::Start(d))
            } else {
                Err((0i64, 100i64))
            },
            None => Err((0i64, 100i64)),
        });
    }
    if chars_eq_lit(key, "ampeg_attack") {
        return Some(match parse_dec(value, 0, value.len()) {
            Some(d) => if dec_in_range(&d, 0, 100) {
                Ok(AmplifierEGParameter::Attack(d))
            } else {
                Err((0i64, 100i64))
            },
            None => Err((0i64, 100i64)),
        });
    }
    if chars_eq_lit(key, "ampeg_hold") {
        return Some(match parse_dec(value, 0, value.len()) {
            Some(d) => if dec_in_range(&d, 0, 100) {
                Ok(AmplifierEGParameter::Hold(d))
            } else {
                Err((0i64, 100i64))
            },
            None => Err((0i64, 100i64)),
        });
    }
    if chars_eq_lit(key, "ampeg_decay") {
        return Some(match parse_dec(value, 0, value.len()) {
            Some(d) => if dec_in_range(&d, 0, 100) {
                Ok(AmplifierEGParameter::Decay(d))
            } else {
                Err((0i64, 100i64))
            },
            None => Err((0i64, 100i64)),
        });
    }
    if chars_eq_lit(key, "ampeg_sustain") {
        return Some(match parse_dec(value, 0, value.len()) {
            Some(d) => if dec_in_range(&d, 0, 100) {
                Ok(AmplifierEGParameter::Sustain(d))
            } else {
                Err((0i64, 100i64))
            },
            None => Err((0i64, 100i64)),
        });
    }
    if chars_eq_lit(key, "ampeg_release") {
        return Some(match parse_dec(value, 0, value.len()) {
            Some(d) => if dec_in_range(&d, 0, 100) {
                Ok(AmplifierEGParameter::Release(d))
            } else {
                Err((0i64, 100i64))
            },
            None => Err((0i64, 100i64)),
        });
    }
    None
}

/// Table entries for [`AmplifierLFOParameter`] keys.
pub open spec fn amplifier_l_f_o_parameter_tax(key: Seq<char>) -> Option<(VKind, int, int)> {
    if key == "amplfo_delay"@ {
        Some((VKind::VDec, 0, 100))
    } else if key == "amplfo_fade"@ {
        Some((VKind::VDec, 0, 100))
    } else if key == "amplfo_freq"@ {
        Some((VKind::VDec, 0, 20))
    } else if key == "amplfo_depth"@ {
        Some((VKind::VDec, -10, 10))
    } else {
        None
    }
}

/// Which key each [`AmplifierLFOParameter`] variant classifies.
pub open spec fn amplifier_l_f_o_parameter_key_match(t: AmplifierLFOParameter, key: Seq<char>) -> bool {
    match t {
        AmplifierLFOParameter::Delay(_) => key == "amplfo_delay"@,
        AmplifierLFOParameter::Fade(_) => key == "amplfo_fade"@,
        AmplifierLFOParameter::Freq(_) => key == "amplfo_freq"@,
        AmplifierLFOParameter::Depth(_) => key == "amplfo_depth"@,
    }
}

/// The value each [`AmplifierLFOParameter`] variant carries, against the raw text.
pub open spec fn amplifier_l_f_o_parameter_value_match(t: AmplifierLFOParameter, value: Seq<char>) -> bool {
    match t {
        AmplifierLFOParameter::Delay(d) => parse_dec_spec(value) == Some(d),
        AmplifierLFOParameter::Fade(d) => parse_dec_spec(value) == Some(d),
        AmplifierLFOParameter::Freq(d) => parse_dec_spec(value) == Some(d),
        AmplifierLFOParameter::Depth(d) => parse_dec_spec(value) == Some(d),
    }
}

/// Classifies a raw pair against the [`AmplifierLFOParameter`] entries.
pub fn classify_amplifier_l_f_o_parameter(key: &Vec<char>, value: &Vec<char>) -> (r: Option<Result<AmplifierLFOParameter, (i64, i64)>>)
    ensures
        match r {
            None => amplifier_l_f_o_parameter_tax(key@) is None,
            Some(Ok(t)) => ({
                &&& amplifier_l_f_o_parameter_tax(key@) matches Some((k, lo, hi)) && value_ok(k, lo, hi, key@, value@)
                &&& amplifier_l_f_o_parameter_key_match(t, key@)
                &&& amplifier_l_f_o_parameter_value_match(t, value@)
            }),
            Some(Err((lo, hi))) => ({
                &&& amplifier_l_f_o_parameter_tax(key@) matches Some((k, l, h)) && l == lo && h == hi && !value_ok(
                    k, l, h, key@, value@)
            }),
        },
{
    proof {
        assert(value@.subrange(0, value@.len() as int) =~= value@);
        reveal_strlit("trigger");
        reveal_strlit("off_mode");
        reveal_strlit("loop_mode");
        reveal_strlit("direction");
        reveal_strlit("fil_type");
        reveal_strlit("xf_keycurve");
        assert("trigger"@[0] == 't');
        assert("off_mode"@[0] == 'o');
        assert("loop_mode"@[0] == 'l');
        assert("direction"@[0] == 'd');
        assert("fil_type"@[0] == 'f');
        assert("xf_keycurve"@[0] == 'x');
        reveal_strlit("amplfo_delay");
        reveal_strlit("amplfo_depth");
        reveal_strlit("amplfo_fade");
        reveal_strlit("amplfo_freq");
    }
    if chars_eq_lit(key, "amplfo_delay") {
        return Some(match parse_dec(value, 0, value.len()) {
            Some(d) => if dec_in_range(&d, 0, 100) {
                Ok(AmplifierLFOParameter::Delay(d))
            } else {
                Err((0i64, 100i64))
            },
            None => Err((0i64, 100i64)),
        });
    }
    if chars_eq_lit(key, "amplfo_fade") {
        return Some(match parse_dec(value, 0, value.len()) {
            Some(d) => if dec_in_range(&d, 0, 100) {
                Ok(AmplifierLFOParameter::Fade(d))
            } else {
                Err((0i64, 100i64))
            },
            None => Err((0i64, 100i64)),
        });
    }
    if chars_eq_lit(key, "amplfo_freq") {
        return Some(match parse_dec(value, 0, value.len()) {
            Some(d) => if dec_in_range(&d, 0, 20) {
                Ok(AmplifierLFOParameter::Freq(d))
            } else {
                Err((0i64, 20i64))
            },
            None => Err((0i64, 20i64)),
        });
    }
    if chars_eq_lit(key, "amplfo_depth") {
        return Some(match parse_dec(value, 0, value.len()) {
            Some(d) => if dec_in_range(&d, -10, 10) {
                Ok(AmplifierLFOParameter::Depth(d))
            } else {
                Err((-10i64, 10i64))
            },
            None => Err((-10i64, 10i64)),
        });
    }
    None
}

/// Table entries for [`EqualizerParameter`] keys.
pub open spec fn equalizer_parameter_tax(key: Seq<char>) -> Option<(VKind, int, int)> {
    if key == "eq1_freq"@ {
        Some((VKind::VDec, 0, 30000))
    } else if key == "eq2_freq"@ {
        Some((VKind::VDec, 0, 30000))
    } else if key == "eq3_freq"@ {
        Some((VKind::VDec, 0, 30000))
    } else if key == "eq1_bw"@ {
        Some((VKind::VDec, 0, 4))
    } else if key == "eq2_bw"@ {
        Some((VKind::VDec, 0, 4))
    } else if key == "eq3_bw"@ {
        Some((VKind::VDec, 0, 4))
    } else if key == "eq1_gain"@ {
        Some((VKind::VDec, -96, 24))
    } else if key == "eq2_gain"@ {
        Some((VKind::VDec, -96, 24))
    } else if key == "eq3_gain"@ {
        Some((VKind::VDec, -96, 24))
    } else {
        None
    }
}

/// Which key each [`EqualizerParameter`] variant classifies.
pub open spec fn equalizer_parameter_key_match(t: EqualizerParameter, key: Seq<char>) -> bool {
    match t {
        EqualizerParameter::Eq1Freq(_) => key == "eq1_freq"@,
        EqualizerParameter::Eq2Freq(_) => key == "eq2_freq"@,
        EqualizerParameter::Eq3Freq(_) => key == "eq3_freq"@,
        EqualizerParameter::Eq1Bandwidth(_) => key == "eq1_bw"@,
        EqualizerParameter::Eq2Bandwidth(_) => key == "eq2_bw"@,
        EqualizerParameter::Eq3Bandwidth(_) => key == "eq3_bw"@,
        EqualizerParameter::Eq1Gain(_) => key == "eq1_gain"@,
        EqualizerParameter::Eq2Gain(_) => key == "eq2_gain"@,
        EqualizerParameter::Eq3Gain(_) => key == "eq3_gain"@,
    }
}

/// The value each [`EqualizerParameter`] variant carries, against the raw text.
pub open spec fn equalizer_parameter_value_match(t: EqualizerParameter, value: Seq<char>) -> bool {
    match t {
        EqualizerParameter::Eq1Freq(d) => parse_dec_spec(value) == Some(d),
        EqualizerParameter::Eq2Freq(d) => parse_dec_spec(value) == Some(d),
        EqualizerParameter::Eq3Freq(d) => parse_dec_spec(value) == Some(d),
        EqualizerParameter::Eq1Bandwidth(d) => parse_dec_spec(value) == Some(d),
        EqualizerParameter::Eq2Bandwidth(d) => parse_dec_spec(value) == Some(d),
        EqualizerParameter::Eq3Bandwidth(d) => parse_dec_spec(value) == Some(d),
        EqualizerParameter::Eq1Gain(d) => parse_dec_spec(value) == Some(d),
        EqualizerParameter::Eq2Gain(d) => parse_dec_spec(value) == Some(d),
        EqualizerParameter::Eq3Gain(d) => parse_dec_spec(value) == Some(d),
    }
}

/// Classifies a raw pair against the [`EqualizerParameter`] entries.
pub fn classify_equalizer_parameter(key: &Vec<char>, value: &Vec<char>) -> (r: Option<Result<EqualizerParameter, (i64, i64)>>)
    ensures
        match r {
            None => equalizer_parameter_tax(key@) is None,
            Some(Ok(t)) => ({
                &&& equalizer_parameter_tax(key@) matches Some((k, lo, hi)) && value_ok(k, lo, hi, key@, value@)
                &&& equalizer_parameter_key_match(t, key@)
                &&& equalizer_parameter_value_match(t, value@)
            }),
            Some(Err((lo, hi))) => ({
                &&& equalizer_parameter_tax(key@) matches Some((k, l, h)) && l == lo && h == hi && !value_ok(
                    k, l, h, key@, value@)
            }),
        },
{
    proof {
        assert(value@.subrange(0, value@.len() as int) =~= value@);
        reveal_strlit("trigger");
        reveal_strlit("off_mode");
        reveal_strlit("loop_mode");
        reveal_strlit("direction");
        reveal_strlit("fil_type");
        reveal_strlit("xf_keycurve");
        assert("trigger"@[0] == 't');
        assert("off_mode"@[0] == 'o');
        assert("loop_mode"@[0] == 'l');
        assert("direction"@[0] == 'd');
        assert("fil_type"@[0] == 'f');
        assert("xf_keycurve"@[0] == 'x');
        reveal_strlit("eq1_bw");
        reveal_strlit("eq1_freq");
        reveal_strlit("eq1_gain");
        reveal_strlit("eq2_bw");
        reveal_strlit("eq2_freq");
        reveal_strlit("eq2_gain");
        reveal_strlit("eq3_bw");
        reveal_strlit("eq3_freq");
        reveal_strlit("eq3_gain");
    }
    if chars_eq_lit(key, "eq1_freq") {
        return Some(match parse_dec(value, 0, value.len()) {
            Some(d) => if dec_in_range(&d, 0, 30000) {
                Ok(EqualizerParameter::Eq1Freq(d))
            } else {
                Err((0i64, 30000i64))
            },
            None => Err((0i64, 30000i64)),
        });
    }
    if chars_eq_lit(key, "eq2_freq") {
        return Some(match parse_dec(value, 0, value.len()) {
            Some(d) => if dec_in_range(&d, 0, 30000) {
                Ok(EqualizerParameter::Eq2Freq(d))
            } else {
                Err((0i64, 30000i64))
            },
            None => Err((0i64, 30000i64)),
        });
    }
    if chars_eq_lit(key, "eq3_freq") {
        return Some(match parse_dec(value, 0, value.len()) {
            Some(d) => if dec_in_range(&d, 0, 30000) {
                Ok(EqualizerParameter::Eq3Freq(d))
            } else {
                Err((0i64, 30000i64))
            },
            None => Err((0i64, 30000i64)),
        });
    }
    if chars_eq_lit(key, "eq1_bw") {
        return Some(match parse_dec(value, 0, value.len()) {
            Some(d) => if dec_in_range(&d, 0, 4) {
                Ok(EqualizerParameter::Eq1Bandwidth(d))
            } else {
                Err((0i64, 4i64))
            },
            None => Err((0i64, 4i64)),
        });
    }
    if chars_eq_lit(key, "eq2_bw") {
        return Some(match parse_dec(value, 0, value.len()) {
            Some(d) => if dec_in_range(&d, 0, 4) {
                Ok(EqualizerParameter::Eq2Bandwidth(d))
            } else {
                Err((0i64, 4i64))
            },
            None => Err((0i64, 4i64)),
        });
    }
    if chars_eq_lit(key, "eq3_bw") {
        return Some(match parse_dec(value, 0, value.len()) {
            Some(d) => if dec_in_range(&d, 0, 4) {
                Ok(EqualizerParameter::Eq3Bandwidth(d))
            } else {
                Err((0i64, 4i64))
            },
            None => Err((0i64, 4i64)),
        });
    }
    if chars_eq_lit(key, "eq1_gain") {
        return Some(match parse_dec(value, 0, value.len()) {
            Some(d) => if dec_in_range(&d, -96, 24) {
                Ok(EqualizerParameter::Eq1Gain(d))
            } else {
                Err((-96i64, 24i64))
            },
            None => Err((-96i64, 24i64)),
        });
    }
    if chars_eq_lit(key, "eq2_gain") {
        return Some(match parse_dec(value, 0, value.len()) {
            Some(d) => if dec_in_range(&d, -96, 24) {
                Ok(EqualizerParameter::Eq2Gain(d))
            } else {
                Err((-96i64, 24i64))
            },
            None => Err((-96i64, 24i64)),
        });
    }
    if chars_eq_lit(key, "eq3_gain") {
        return Some(match parse_dec(value, 0, value.len()) {
            Some(d) => if dec_in_range(&d, -96, 24) {
                Ok(EqualizerParameter::Eq3Gain(d))
            } else {
                Err((-96i64, 24i64))
            },
            None => Err((-96i64, 24i64)),
        });
    }
    None
}

/// The whole closed table: the value kind and inclusive bounds of every
/// recognized opcode key; `None` for an unrecognized key.
pub open spec fn taxonomy(key: Seq<char>) -> Option<(VKind, int, int)> {
    if key_mapping_tax(key) is Some {
        key_mapping_tax(key)
    } else if midi_conditions_tax(key) is Some {
        midi_conditions_tax(key)
    } else if internal_conditions_tax(key) is Some {
        internal_conditions_tax(key)
    } else if triggers_tax(key) is Some {
        triggers_tax(key)
    } else if voice_lifecycle_tax(key) is Some {
        voice_lifecycle_tax(key)
    } else if sample_playback_tax(key) is Some {
        sample_playback_tax(key)
    } else if instrument_settings_tax(key) is Some {
        instrument_settings_tax(key)
    } else if pitch_parameter_tax(key) is Some {
        pitch_parameter_tax(key)
    } else if pitch_e_g_parameter_tax(key) is Some {
        pitch_e_g_parameter_tax(key)
    } else if pitch_l_f_o_parameter_tax(key) is Some {
        pitch_l_f_o_parameter_tax(key)
    } else if filter_parameter_tax(key) is Some {
        filter_parameter_tax(key)
    } else if filter_e_g_parameter_tax(key) is Some {
        filter_e_g_parameter_tax(key)
    } else if filter_l_f_o_parameter_tax(key) is Some {
        filter_l_f_o_parameter_tax(key)
    } else if amplifier_parameter_tax(key) is Some {
        amplifier_parameter_tax(key)
    } else if amplifier_e_g_parameter_tax(key) is Some {
        amplifier_e_g_parameter_tax(key)
    } else if amplifier_l_f_o_parameter_tax(key) is Some {
        amplifier_l_f_o_parameter_tax(key)
    } else if equalizer_parameter_tax(key) is Some {
        equalizer_parameter_tax(key)
    } else {
        None
    }
}

/// Which key a typed opcode classifies.
pub open spec fn opcode_key_match(t: Opcode, key: Seq<char>) -> bool {
    match t {
        Opcode::KeyMapping(x) => key_mapping_key_match(x, key),
        Opcode::MidiConditions(x) => midi_conditions_key_match(x, key),
        Opcode::InternalConditions(x) => internal_conditions_key_match(x, key),
        Opcode::Triggers(x) => triggers_key_match(x, key),
        Opcode::VoiceLifecycle(x) => voice_lifecycle_key_match(x, key),
        Opcode::SamplePlayback(x) => sample_playback_key_match(x, key),
        Opcode::InstrumentSettings(x) => instrument_settings_key_match(x, key),
        Opcode::Performance(p) => match p {
            PerformanceParameter::Pitch(x) => pitch_parameter_key_match(x, key),
            PerformanceParameter::PitchEG(x) => pitch_e_g_parameter_key_match(x, key),
            PerformanceParameter::PitchLFO(x) => pitch_l_f_o_parameter_key_match(x, key),
            PerformanceParameter::Filter(x) => filter_parameter_key_match(x, key),
            PerformanceParameter::FilterEG(x) => filter_e_g_parameter_key_match(x, key),
            PerformanceParameter::FilterLFO(x) => filter_l_f_o_parameter_key_match(x, key),
            PerformanceParameter::Amplifier(x) => amplifier_parameter_key_match(x, key),
            PerformanceParameter::AmplifierEG(x) => amplifier_e_g_parameter_key_match(x, key),
            PerformanceParameter::AmplifierLFO(x) => amplifier_l_f_o_parameter_key_match(x, key),
            PerformanceParameter::Equalizer(x) => equalizer_parameter_key_match(x, key),
        },
    }
}

/// The value a typed opcode carries, against the raw text it came from.
pub open spec fn opcode_value_match(t: Opcode, value: Seq<char>) -> bool {
    match t {
        Opcode::KeyMapping(x) => key_mapping_value_match(x, value),
        Opcode::MidiConditions(x) => midi_conditions_value_match(x, value),
        Opcode::InternalConditions(x) => internal_conditions_value_match(x, value),
        Opcode::Triggers(x) => triggers_value_match(x, value),
        Opcode::VoiceLifecycle(x) => voice_lifecycle_value_match(x, value),
        Opcode::SamplePlayback(x) => sample_playback_value_match(x, value),
        Opcode::InstrumentSettings(x) => instrument_settings_value_match(x, value),
        Opcode::Performance(p) => match p {
            PerformanceParameter::Pitch(x) => pitch_parameter_value_match(x, value),
            PerformanceParameter::PitchEG(x) => pitch_e_g_parameter_value_match(x, value),
            PerformanceParameter::PitchLFO(x) => pitch_l_f_o_parameter_value_match(x, value),
            PerformanceParameter::Filter(x) => filter_parameter_value_match(x, value),
            PerformanceParameter::FilterEG(x) => filter_e_g_parameter_value_match(x, value),
            PerformanceParameter::FilterLFO(x) => filter_l_f_o_parameter_value_match(x, value),
            PerformanceParameter::Amplifier(x) => amplifier_parameter_value_match(x, value),
            PerformanceParameter::AmplifierEG(x) => amplifier_e_g_parameter_value_match(x, value),
            PerformanceParameter::AmplifierLFO(x) => amplifier_l_f_o_parameter_value_match(x, value),
            PerformanceParameter::Equalizer(x) => equalizer_parameter_value_match(x, value),
        },
    }
}

/// Result of classification: a typed opcode, or an unrecognized key kept
/// as an opaque pass-through.
#[derive(Debug, Clone, PartialEq)]
pub enum Classified {
    Known(Opcode),
    Unknown,
}

/// Classifies one raw pair against the closed taxonomy.  A recognized key
/// yields its typed opcode exactly when the value parses as the declared
/// kind and lies in the declared inclusive range; a recognized key with an
/// inadmissible value fails naming the key, the value and the bounds; an
/// unrecognized key is not an error.
pub fn classify(op: &RawOpcode) -> (r: Result<Classified, SfzError>)
    ensures
        match r {
            Ok(Classified::Known(t)) => ({
                &&& taxonomy(op.key@) matches Some((k, lo, hi)) && value_ok(
                    k, lo, hi, op.key@, op.value@)
                &&& opcode_key_match(t, op.key@)
                &&& opcode_value_match(t, op.value@)
            }),
            Ok(Classified::Unknown) => taxonomy(op.key@) is None,
            Err(SfzError::OpcodeRangeViolation { key, value, lo, hi }) => ({
                &&& key@ == op.key@ && value@ == op.value@
                &&& taxonomy(op.key@) matches Some((k, l, h)) && l == lo && h == hi && !value_ok(
                    k, l, h, op.key@, op.value@)
            }),
            Err(e) => false,
        },
{
    let key = &op.key;
    let value = &op.value;
    match classify_key_mapping(key, value) {
        Some(Ok(x)) => {
            return Ok(Classified::Known(Opcode::KeyMapping(x)));
        },
        Some(Err((lo, hi))) => {
            return Err(SfzError::OpcodeRangeViolation {
                key: clone_chars(key),
                value: clone_chars(value),
                lo,
                hi,
            });
        },
        None => {},
    }
    match classify_midi_conditions(key, value) {
        Some(Ok(x)) => {
            return Ok(Classified::Known(Opcode::MidiConditions(x)));
        },
        Some(Err((lo, hi))) => {
            return Err(SfzError::OpcodeRangeViolation {
                key: clone_chars(key),
                value: clone_chars(value),
                lo,
                hi,
            });
        },
        None => {},
    }
    match classify_internal_conditions(key, value) {
        Some(Ok(x)) => {
            return Ok(Classified::Known(Opcode::InternalConditions(x)));
        },
        Some(Err((lo, hi))) => {
            return Err(SfzError::OpcodeRangeViolation {
                key: clone_chars(key),
                value: clone_chars(value),
                lo,
                hi,
            });
        },
        None => {},
    }
    match classify_triggers(key, value) {
        Some(Ok(x)) => {
            return Ok(Classified::Known(Opcode::Triggers(x)));
        },
        Some(Err((lo, hi))) => {
            return Err(SfzError::OpcodeRangeViolation {
                key: clone_chars(key),
                value: clone_chars(value),
                lo,
                hi,
            });
        },
        None => {},
    }
    match classify_voice_lifecycle(key, value) {
        Some(Ok(x)) => {
            return Ok(Classified::Known(Opcode::VoiceLifecycle(x)));
        },
        Some(Err((lo, hi))) => {
            return Err(SfzError::OpcodeRangeViolation {
                key: clone_chars(key),
                value: clone_chars(value),
                lo,
                hi,
            });
        },
        None => {},
    }
    match classify_sample_playback(key, value) {
        Some(Ok(x)) => {
            return Ok(Classified::Known(Opcode::SamplePlayback(x)));
        },
        Some(Err((lo, hi))) => {
            return Err(SfzError::OpcodeRangeViolation {
                key: clone_chars(key),
                value: clone_chars(value),
                lo,
                hi,
            });
        },
        None => {},
    }
    match classify_instrument_settings(key, value) {
        Some(Ok(x)) => {
            return Ok(Classified::Known(Opcode::InstrumentSettings(x)));
        },
        Some(Err((lo, hi))) => {
            return Err(SfzError::OpcodeRangeViolation {
                key: clone_chars(key),
                value: clone_chars(value),
                lo,
                hi,
            });
        },
        None => {},
    }
    match classify_pitch_parameter(key, value) {
        Some(Ok(x)) => {
            return Ok(Classified::Known(Opcode::Performance(PerformanceParameter::Pitch(x))));
        },
        Some(Err((lo, hi))) => {
            return Err(SfzError::OpcodeRangeViolation {
                key: clone_chars(key),
                value: clone_chars(value),
                lo,
                hi,
            });
        },
        None => {},
    }
    match classify_pitch_e_g_parameter(key, value) {
        Some(Ok(x)) => {
            return Ok(Classified::Known(Opcode::Performance(PerformanceParameter::PitchEG(x))));
        },
        Some(Err((lo, hi))) => {
            return Err(SfzError::OpcodeRangeViolation {
                key: clone_chars(key),
                value: clone_chars(value),
                lo,
                hi,
            });
        },
        None => {},
    }
    match classify_pitch_l_f_o_parameter(key, value) {
        Some(Ok(x)) => {
            return Ok(Classified::Known(Opcode::Performance(PerformanceParameter::PitchLFO(x))));
        },
        Some(Err((lo, hi))) => {
            return Err(SfzError::OpcodeRangeViolation {
                key: clone_chars(key),
                value: clone_chars(value),
                lo,
                hi,
            });
        },
        None => {},
    }
    match classify_filter_parameter(key, value) {
        Some(Ok(x)) => {
            return Ok(Classified::Known(Opcode::Performance(PerformanceParameter::Filter(x))));
        },
        Some(Err((lo, hi))) => {
            return Err(SfzError::OpcodeRangeViolation {
                key: clone_chars(key),
                value: clone_chars(value),
                lo,
                hi,
            });
        },
        None => {},
    }
    match classify_filter_e_g_parameter(key, value) {
        Some(Ok(x)) => {
            return Ok(Classified::Known(Opcode::Performance(PerformanceParameter::FilterEG(x))));
        },
        Some(Err((lo, hi))) => {
            return Err(SfzError::OpcodeRangeViolation {
                key: clone_chars(key),
                value: clone_chars(value),
                lo,
                hi,
            });
        },
        None => {},
    }
    match classify_filter_l_f_o_parameter(key, value) {
        Some(Ok(x)) => {
            return Ok(Classified::Known(Opcode::Performance(PerformanceParameter::FilterLFO(x))));
        },
        Some(Err((lo, hi))) => {
            return Err(SfzError::OpcodeRangeViolation {
                key: clone_chars(key),
                value: clone_chars(value),
                lo,
                hi,
            });
        },
        None => {},
    }
    match classify_amplifier_parameter(key, value) {
        Some(Ok(x)) => {
            return Ok(Classified::Known(Opcode::Performance(PerformanceParameter::Amplifier(x))));
        },
        Some(Err((lo, hi))) => {
            return Err(SfzError::OpcodeRangeViolation {
                key: clone_chars(key),
                value: clone_chars(value),
                lo,
                hi,
            });
        },
        None => {},
    }
    match classify_amplifier_e_g_parameter(key, value) {
        Some(Ok(x)) => {
            return Ok(Classified::Known(Opcode::Performance(PerformanceParameter::AmplifierEG(x))));
        },
        Some(Err((lo, hi))) => {
            return Err(SfzError::OpcodeRangeViolation {
                key: clone_chars(key),
                value: clone_chars(value),
                lo,
                hi,
            });
        },
        None => {},
    }
    match classify_amplifier_l_f_o_parameter(key, value) {
        Some(Ok(x)) => {
            return Ok(Classified::Known(Opcode::Performance(PerformanceParameter::AmplifierLFO(x))));
        },
        Some(Err((lo, hi))) => {
            return Err(SfzError::OpcodeRangeViolation {
                key: clone_chars(key),
                value: clone_chars(value),
                lo,
                hi,
            });
        },
        None => {},
    }
    match classify_equalizer_parameter(key, value) {
        Some(Ok(x)) => {
            return Ok(Classified::Known(Opcode::Performance(PerformanceParameter::Equalizer(x))));
        },
        Some(Err((lo, hi))) => {
            return Err(SfzError::OpcodeRangeViolation {
                key: clone_chars(key),
                value: clone_chars(value),
                lo,
                hi,
            });
        },
        None => {},
    }
    Ok(Classified::Unknown)
}

/// For every taxonomy key of integer kind, a value text denoting either
/// inclusive boundary of the declared range is admitted, and one denoting
/// a value one unit outside either boundary is rejected.
pub proof fn lemma_boundary_classification(
    key: Seq<char>,
    at_lo: Seq<char>,
    at_hi: Seq<char>,
    below: Seq<char>,
    above: Seq<char>,
)
    requires
        taxonomy(key) matches Some((k, lo, hi)) && k == VKind::VInt && lo <= hi
            && parse_int_spec(at_lo) == Some(lo) && parse_int_spec(at_hi) == Some(hi)
            && parse_int_spec(below) == Some((lo - 1) as int) && parse_int_spec(above) == Some(
            (hi + 1) as int,
        ),
    ensures
        ({
            let (k, lo, hi) = taxonomy(key)->Some_0;
            &&& value_ok(k, lo, hi, key, at_lo)
            &&& value_ok(k, lo, hi, key, at_hi)
            &&& !value_ok(k, lo, hi, key, below)
            &&& !value_ok(k, lo, hi, key, above)
        }),
{
}

/// The decimal analogue: a decimal denoting exactly a boundary of the
/// declared range is admitted; one denoting a value one unit outside is
/// rejected.
pub proof fn lemma_dec_boundary_classification(
    key: Seq<char>,
    at_lo: Seq<char>,
    at_hi: Seq<char>,
    below: Seq<char>,
    above: Seq<char>,
    d_lo: Decimal,
    d_hi: Decimal,
    d_below: Decimal,
    d_above: Decimal,
)
    requires
        taxonomy(key) matches Some((k, lo, hi)) && k == VKind::VDec && lo <= hi,
        parse_dec_spec(at_lo) == Some(d_lo) && d_lo.num() == taxonomy(key)->Some_0.1 * crate::numbers::pow10(d_lo.scale as nat),
        parse_dec_spec(at_hi) == Some(d_hi) && d_hi.num() == taxonomy(key)->Some_0.2 * crate::numbers::pow10(d_hi.scale as nat),
        parse_dec_spec(below) == Some(d_below) && d_below.num() == (taxonomy(key)->Some_0.1 - 1) * crate::numbers::pow10(d_below.scale as nat),
        parse_dec_spec(above) == Some(d_above) && d_above.num() == (taxonomy(key)->Some_0.2 + 1) * crate::numbers::pow10(d_above.scale as nat),
    ensures
        ({
            let (k, lo, hi) = taxonomy(key)->Some_0;
            &&& value_ok(k, lo, hi, key, at_lo)
            &&& value_ok(k, lo, hi, key, at_hi)
            &&& !value_ok(k, lo, hi, key, below)
            &&& !value_ok(k, lo, hi, key, above)
        }),
{
    let (k, lo, hi) = taxonomy(key)->Some_0;
    crate::numbers::lemma_pow10_positive(d_lo.scale as nat);
    crate::numbers::lemma_pow10_positive(d_hi.scale as nat);
    crate::numbers::lemma_pow10_positive(d_below.scale as nat);
    crate::numbers::lemma_pow10_positive(d_above.scale as nat);
    assert(lo * crate::numbers::pow10(d_lo.scale as nat) <= hi * crate::numbers::pow10(
        d_lo.scale as nat,
    )) by (nonlinear_arith)
        requires
            lo <= hi,
            crate::numbers::pow10(d_lo.scale as nat) >= 1,
    ;
    assert(lo * crate::numbers::pow10(d_hi.scale as nat) <= hi * crate::numbers::pow10(
        d_hi.scale as nat,
    )) by (nonlinear_arith)
        requires
            lo <= hi,
            crate::numbers::pow10(d_hi.scale as nat) >= 1,
    ;
    assert((lo - 1) * crate::numbers::pow10(d_below.scale as nat) < lo * crate::numbers::pow10(
        d_below.scale as nat,
    )) by (nonlinear_arith)
        requires
            crate::numbers::pow10(d_below.scale as nat) >= 1,
    ;
    assert((hi + 1) * crate::numbers::pow10(d_above.scale as nat) > hi * crate::numbers::pow10(
        d_above.scale as nat,
    )) by (nonlinear_arith)
        requires
            crate::numbers::pow10(d_above.scale as nat) >= 1,
    ;
}

/// Round-trip within the key-mapping category: the key and the raw value
/// text determine the typed opcode completely, so reading a classified
/// opcode's payload back yields exactly the number the text denoted.
pub proof fn lemma_key_mapping_round_trip(
    t1: KeyMapping,
    t2: KeyMapping,
    key: Seq<char>,
    value: Seq<char>,
)
    requires
        key_mapping_key_match(t1, key),
        key_mapping_key_match(t2, key),
        key_mapping_value_match(t1, value),
        key_mapping_value_match(t2, value),
    ensures
        t1 == t2,
{
    reveal_strlit("lokey");
    reveal_strlit("hikey");
    reveal_strlit("key");
    reveal_strlit("lovel");
    reveal_strlit("hivel");
    assert("lokey"@[0] == 'l');
    assert("hikey"@[0] == 'h');
    assert("key"@[0] == 'k');
    assert("lovel"@[0] == 'l');
    assert("hivel"@[0] == 'h');
    assert("lokey"@[2] == 'k');
    assert("lovel"@[2] == 'v');
    assert("hikey"@[2] == 'k');
    assert("hivel"@[2] == 'v');
}

} // verus!
