//! The telemetry payload: `sid=<sensor>,value=<number>`.
use vstd::prelude::*;
use vstd::slice::slice_subrange;

use crate::text;

verus! {

/// What the parts of a payload have said so far.
pub ghost struct SensorFields {
    pub sid: Option<nat>,
    pub value: Option<Seq<char>>,
}

/// Reads the parts of a payload, each `key=value`; a later part with the same key counts.
pub open spec fn read_parts(parts: Seq<Seq<char>>, so_far: SensorFields) -> Option<SensorFields>
    decreases parts.len(),
{
    if parts.len() == 0 {
        Some(so_far)
    } else {
        let part = parts[0];
        let at = text::first_index(part, '=');
        let key = text::lowered(text::trimmed(part.take(at)));
        let value = text::trimmed(part.skip(at + 1));
        if at == part.len() {
            None
        } else if key == "sid"@ {
            read_parts(
                parts.skip(1),
                SensorFields { sid: text::parsed_unsigned(value, usize::MAX as nat), ..so_far },
            )
        } else if key == "value"@ {
            read_parts(
                parts.skip(1),
                SensorFields {
                    value: if text::is_float(value) {
                        Some(value)
                    } else {
                        None
                    },
                    ..so_far
                },
            )
        } else {
            read_parts(parts.skip(1), so_far)
        }
    }
}

/// The sensor and the notation of the value that a payload text names.
pub open spec fn sensor_text(s: Seq<char>) -> Option<(nat, Seq<char>)> {
    match read_parts(
        text::split_on(text::trimmed(s), ','),
        SensorFields { sid: None, value: None },
    ) {
        Some(SensorFields { sid: Some(sid), value: Some(value) }) => Some((sid, value)),
        _ => None,
    }
}

/// The sensor and the notation of the value that a payload names, where it is text.
pub open spec fn sensor_value(payload: Seq<u8>) -> Option<(nat, Seq<char>)> {
    if vstd::utf8::valid_utf8(payload) {
        sensor_text(vstd::utf8::decode_utf8(payload))
    } else {
        None
    }
}

/// Reads a telemetry payload: the sensor id, and the value in its notation.
pub fn parse_sensor_value(payload: &[u8]) -> (r: Option<(usize, String)>)
    ensures
        match r {
            Some((sid, value)) => sensor_value(payload@) == Some((sid as nat, value@)),
            None => sensor_value(payload@) is None,
        },
        r is Some ==> text::is_float((r->0).1@),
{
    let s: &str = match text::from_utf8(payload) {
        Some(s) => s,
        None => {
            return None;
        },
    };
    let chars: Vec<char> = text::chars_of(s);
    let parts: Vec<Vec<char>> = text::split(text::trim(chars.as_slice()), ',');
    let ghost all = text::views(parts@);
    let mut sid: Option<usize> = None;
    let mut value: Option<String> = None;
    let ghost mut so_far = SensorFields { sid: None, value: None };
    proof {
        assert(all.skip(0) =~= all);
    }
    for i in 0..parts.len()
        invariant
            all == text::views(parts@),
            all == text::split_on(text::trimmed(s@), ','),
            s@ == vstd::utf8::decode_utf8(payload@),
            vstd::utf8::valid_utf8(payload@),
            read_parts(all, (SensorFields { sid: None, value: None })) == read_parts(
                all.skip(i as int),
                so_far,
            ),
            match sid {
                Some(v) => so_far.sid == Some(v as nat),
                None => so_far.sid is None,
            },
            match value {
                Some(v) => so_far.value == Some(v@) && text::is_float(v@),
                None => so_far.value is None,
            },
    {
        let part: &Vec<char> = &parts[i];
        let at: usize = text::find_char(part.as_slice(), '=');
        proof {
            assert(all.skip(i as int)[0] == part@);
            assert(all.skip(i as int).skip(1) =~= all.skip(i + 1));
        }
        if at == part.len() {
            return None;
        }
        let key: &[char] = slice_subrange(part.as_slice(), 0, at);
        let rest: &[char] = slice_subrange(part.as_slice(), at + 1, part.len());
        proof {
            assert(key@ =~= part@.take(at as int));
            assert(rest@ =~= part@.skip(at + 1));
        }
        let k: &[char] = text::trim(key);
        let v: &[char] = text::trim(rest);
        if text::is_word(k, "sid") {
            sid =
            match text::parse_unsigned(v, usize::MAX as u64) {
                Some(n) => Some(n as usize),
                None => None,
            };
            proof {
                so_far =
                SensorFields { sid: text::parsed_unsigned(v@, usize::MAX as nat), ..so_far };
            }
        } else if text::is_word(k, "value") {
            value = if text::check_float(v) {
                Some(text::string_of(v))
            } else {
                None
            };
            proof {
                so_far =
                SensorFields {
                    value: if text::is_float(v@) {
                        Some(v@)
                    } else {
                        None
                    },
                    ..so_far
                };
            }
        }
    }
    proof {
        assert(all.skip(parts@.len() as int) =~= Seq::<Seq<char>>::empty());
    }
    match sid {
        Some(sid) => match value {
            Some(value) => Some((sid, value)),
            None => None,
        },
        None => None,
    }
}

/// The payload text for a sensor and the notation of its value.
pub open spec fn payload_text(sensor_id: nat, value: Seq<char>) -> Seq<char> {
    "sid="@ + text::decimal(sensor_id) + ",value="@ + value
}

/// The payload for a sensor and the notation of its value.
pub fn sensor_payload(sensor_id: usize, value: &str) -> (r: Vec<u8>)
    ensures
        r@ == vstd::utf8::encode_utf8(payload_text(sensor_id as nat, value@)),
{
    let mut s: String = text::owned("sid=");
    text::push_decimal(&mut s, sensor_id as u64);
    text::push_text(&mut s, ",value=");
    text::push_text(&mut s, value);
    let bytes: &[u8] = s.as_str().as_bytes();
    vstd::slice::slice_to_vec(bytes)
}

/// What a sender writes for a sensor and a value is read back as that sensor and value.
pub proof fn law_payload_round_trip(sensor_id: nat, value: Seq<char>)
    requires
        sensor_id <= usize::MAX,
        text::is_float(value),
    ensures
        sensor_value(vstd::utf8::encode_utf8(payload_text(sensor_id, value))) == Some(
            (sensor_id, value),
        ),
{
    let s = payload_text(sensor_id, value);
    vstd::utf8::encode_utf8_valid_utf8(s);
    vstd::utf8::encode_utf8_decode_utf8(s);
    reveal_strlit("sid=");
    reveal_strlit(",value=");
    reveal_strlit("sid");
    reveal_strlit("value");
    let d = text::decimal(sensor_id);
    text::law_decimal_round_trip(sensor_id, usize::MAX as nat);
    text::lemma_decimal_digits(sensor_id);
    text::lemma_float_chars(value);
    let first = "sid="@ + d;
    let second = "value="@ + value;
    reveal_strlit("value=");
    assert(s =~= first + seq![','] + second);
    assert(!text::white_space(s[0]) && !text::white_space(s.last()));
    assert(text::trimmed(s) == s);
    text::lemma_first_index_at(s, ',', first.len() as int);
    assert(s.take(first.len() as int) =~= first);
    assert(s.skip(first.len() as int + 1) =~= second);
    text::lemma_first_index_at(second, ',', second.len() as int);
    let parts = text::split_on(s, ',');
    assert(text::split_on(second, ',') =~= seq![second]);
    assert(parts =~= seq![first, second]);
    text::lemma_first_index_at(first, '=', 3);
    text::lemma_first_index_at(second, '=', 5);
    assert(first.take(3) =~= "sid"@);
    assert(first.skip(4) =~= d);
    assert(second.take(5) =~= "value"@);
    assert(second.skip(6) =~= value);
    assert(text::lowered("sid"@) =~= "sid"@);
    assert(text::lowered("value"@) =~= "value"@);
    assert(text::trimmed(d) == d);
    assert(text::trimmed(value) == value);
    assert(text::trimmed("sid"@) == "sid"@);
    assert(text::trimmed("value"@) == "value"@);
    assert("sid"@ != "value"@) by {
        assert("sid"@.len() != "value"@.len());
    }
    assert(parts.skip(1) =~= seq![second]);
    assert(parts.skip(1).skip(1) =~= Seq::<Seq<char>>::empty());
    reveal_with_fuel(read_parts, 3);
}

/// The parts are read one after the other. A part without an equals sign spoils the whole; the
/// number of the sensor and the value are taken by their names, in whatever case, the last of
/// each counts, and parts with other names are passed over.
pub proof fn law_parts(part: Seq<char>, rest: Seq<Seq<char>>, so_far: SensorFields)
    ensures
        ({
            let parts = seq![part] + rest;
            let at = text::first_index(part, '=');
            let key = text::lowered(text::trimmed(part.take(at)));
            let value = text::trimmed(part.skip(at + 1));
            &&& at == part.len() ==> read_parts(parts, so_far) is None
            &&& at != part.len() && key == "sid"@ ==> read_parts(parts, so_far) == read_parts(
                rest,
                SensorFields {
                    sid: text::parsed_unsigned(value, usize::MAX as nat),
                    value: so_far.value,
                },
            )
            &&& at != part.len() && key == "value"@ ==> read_parts(parts, so_far) == read_parts(
                rest,
                SensorFields {
                    sid: so_far.sid,
                    value: if text::is_float(value) {
                        Some(value)
                    } else {
                        None
                    },
                },
            )
            &&& at != part.len() && key != "sid"@ && key != "value"@ ==> read_parts(parts, so_far)
                == read_parts(rest, so_far)
        }),
        read_parts(Seq::empty(), so_far) == Some(so_far),
{
    reveal_strlit("sid");
    reveal_strlit("value");
    assert("sid"@.len() == 3 && "value"@.len() == 5);
    let parts = seq![part] + rest;
    assert(parts[0] == part);
    assert(parts.skip(1) =~= rest);
}

/// A payload names a sensor and a value only where it is text and both were read, and then
/// those; the parts stand between commas.
pub proof fn law_payload_parts(payload: Seq<u8>)
    ensures
        !vstd::utf8::valid_utf8(payload) ==> sensor_value(payload) is None,
        vstd::utf8::valid_utf8(payload) ==> ({
            let read = read_parts(
                text::split_on(text::trimmed(vstd::utf8::decode_utf8(payload)), ','),
                SensorFields { sid: None, value: None },
            );
            &&& sensor_value(payload) is Some <==> read is Some && read->0.sid is Some
                && read->0.value is Some
            &&& sensor_value(payload) matches Some((sid, value)) ==> read->0.sid == Some(sid)
                && read->0.value == Some(value)
        }),
{
}

/// A payload is written as the number of the sensor and the value, in this order.
pub proof fn law_payload_text(sensor_id: nat, value: Seq<char>)
    ensures
        payload_text(sensor_id, value) == "sid="@ + text::decimal(sensor_id) + ",value="@ + value,
{
}

} // verus!
