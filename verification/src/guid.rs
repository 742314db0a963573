//! World and author identity: GUID segments as the game's UI shows them,
//! eight hexadecimal digits per segment, segments joined by dashes, each
//! segment standing for a 32-bit identifier field.

use vstd::prelude::*;
use vstd::string::StringExecFns;
use vstd::string::StringSliceAdditionalSpecFns;

verus! {

/// An author: display name and dash-joined GUID, as the game's UI shows
/// them.
#[derive(Clone, Debug, PartialEq, Eq)]
pub struct Author {
    pub name: String,
    pub guid: String,
}

impl Author {
    pub fn new(name: &str, guid: &str) -> (r: Author)
        ensures
            r.name@ == name@,
            r.guid@ == guid@,
    {
        Author { name: name.to_owned(), guid: guid.to_owned() }
    }
}

/// The value of one hexadecimal digit byte, if it is one.
pub open spec fn spec_hex_digit(b: u8) -> Option<u32> {
    if 0x30 <= b <= 0x39 {
        Some((b - 0x30) as u32)
    } else if 0x41 <= b <= 0x46 {
        Some((b - 0x41 + 10) as u32)
    } else if 0x61 <= b <= 0x66 {
        Some((b - 0x61 + 10) as u32)
    } else {
        None
    }
}

/// Folds hexadecimal digit bytes into a 32-bit value from position `i`
/// with accumulator `acc`; nothing on a non-digit byte or overflow.
pub open spec fn spec_hex_fold(s: Seq<u8>, i: int, acc: u32) -> Option<u32>
    decreases s.len() - i,
{
    if !(0 <= i < s.len()) {
        Some(acc)
    } else {
        match spec_hex_digit(s[i]) {
            Some(d) => if acc > 0x0FFFFFFF {
                None
            } else {
                spec_hex_fold(s, i + 1, (acc * 16 + d) as u32)
            },
            None => None,
        }
    }
}

/// The 32-bit value of a whole string of hexadecimal digits; nothing for
/// an empty string, a non-digit, or a value past 32 bits.
pub open spec fn spec_hex_value(s: Seq<u8>) -> Option<u32> {
    if s.len() == 0 {
        None
    } else {
        spec_hex_fold(s, 0, 0)
    }
}

/// Index of the first dash byte, or the length when there is none.
pub open spec fn first_dash_at(s: Seq<u8>) -> int
    decreases s.len(),
{
    if s.len() == 0 {
        0
    } else if s[0] == 0x2D {
        0
    } else {
        1 + first_dash_at(s.drop_first())
    }
}

/// The first dash is exactly where a left-to-right scan finds it.
pub proof fn lemma_first_dash_scan(s: Seq<u8>, i: int)
    requires
        0 <= i <= s.len(),
        forall|k: int| 0 <= k < i ==> s[k] != 0x2D,
        i < s.len() ==> s[i] == 0x2D,
    ensures
        first_dash_at(s) == i,
    decreases s.len(),
{
    if i == 0 {
    } else {
        assert(s[0] != 0x2D);
        assert forall|k: int| 0 <= k < i - 1 implies s.drop_first()[k] != 0x2D by {
            assert(s.drop_first()[k] == s[k + 1]);
        }
        if i - 1 < s.drop_first().len() {
            assert(s.drop_first()[i - 1] == s[i]);
        }
        lemma_first_dash_scan(s.drop_first(), i - 1);
    }
}

/// The dash-separated segments of a GUID string's bytes: each dash adds
/// one more segment, and a trailing or doubled dash yields an empty one.
pub open spec fn guid_segments(s: Seq<u8>) -> Seq<Seq<u8>>
    decreases s.len(),
{
    let d = first_dash_at(s);
    if !(0 <= d < s.len()) {
        seq![s]
    } else {
        seq![s.take(d)] + guid_segments(s.skip(d + 1))
    }
}

/// The 32-bit values of a list of segments, one per segment in order;
/// nothing when any segment is not a 32-bit hexadecimal string.
pub open spec fn seg_values(segs: Seq<Seq<u8>>) -> Option<Seq<u32>>
    decreases segs.len(),
{
    if segs.len() == 0 {
        Some(Seq::empty())
    } else {
        match spec_hex_value(segs[0]) {
            Some(v) => match seg_values(segs.drop_first()) {
                Some(rest) => Some(seq![v] + rest),
                None => None,
            },
            None => None,
        }
    }
}

/// When every segment parses, there is exactly one value per segment.
pub proof fn lemma_seg_values_len(segs: Seq<Seq<u8>>)
    requires
        seg_values(segs) is Some,
    ensures
        seg_values(segs)->Some_0.len() == segs.len(),
    decreases segs.len(),
{
    if segs.len() > 0 {
        lemma_seg_values_len(segs.drop_first());
    }
}

fn parse_hex_bytes(bytes: &[u8]) -> (r: Option<u32>)
    ensures
        r == spec_hex_value(bytes@),
{
    if bytes.len() == 0 {
        return None;
    }
    let mut acc: u32 = 0;
    let mut i: usize = 0;
    while i < bytes.len()
        invariant
            0 <= i <= bytes@.len(),
            spec_hex_fold(bytes@, 0, 0) == spec_hex_fold(bytes@, i as int, acc),
        decreases bytes@.len() - i,
    {
        let b = bytes[i];
        let d: u32 = if 0x30 <= b && b <= 0x39 {
            (b - 0x30) as u32
        } else if 0x41 <= b && b <= 0x46 {
            (b - 0x41 + 10) as u32
        } else if 0x61 <= b && b <= 0x66 {
            (b - 0x61 + 10) as u32
        } else {
            return None;
        };
        if acc > 0x0FFFFFFF {
            return None;
        }
        acc = acc * 16 + d;
        i = i + 1;
    }
    Some(acc)
}

/// Converts one GUID segment, as the game UI provides it, to its 32-bit
/// field value. Exactly the strings of one or more hexadecimal digits
/// whose value fits 32 bits are accepted; the error names the offending
/// segment.
pub fn parse_single_guid(guid: &str) -> (r: Result<u32, String>)
    ensures
        r is Ok <==> spec_hex_value(guid.spec_bytes()) is Some,
        r is Ok ==> Some(r->Ok_0) == spec_hex_value(guid.spec_bytes()),
        r is Err ==> r->Err_0@ == "invalid GUID segment: "@ + guid@,
{
    let bytes = guid.as_bytes();
    match parse_hex_bytes(bytes) {
        Some(v) => Ok(v),
        None => {
            let mut msg = String::from_str("invalid GUID segment: ");
            msg.append(guid);
            Err(msg)
        },
    }
}

/// Converts a dash-joined GUID, as the game UI provides it, to its field
/// values, one per dash-separated segment in order. Succeeds exactly when
/// every segment is a 32-bit hexadecimal string; the error names the
/// offending input.
pub fn parse_guid(guid: &str) -> (r: Result<Vec<u32>, String>)
    ensures
        r is Ok <==> seg_values(guid_segments(guid.spec_bytes())) is Some,
        r is Ok ==> Some(r->Ok_0@) == seg_values(guid_segments(guid.spec_bytes())),
        r is Err ==> r->Err_0@ == "invalid GUID segment in: "@ + guid@,
{
    let bytes = guid.as_bytes();
    let ghost s = bytes@;
    let mut out: Vec<u32> = Vec::new();
    let mut seg: Vec<u8> = Vec::new();
    let ghost mut seg_start: int = 0;
    let mut i: usize = 0;
    proof {
        assert(s.skip(0) =~= s);
        if seg_values(guid_segments(s)) is Some {
            assert(Seq::<u32>::empty() + seg_values(guid_segments(s))->Some_0 =~= seg_values(
                guid_segments(s),
            )->Some_0);
        }
    }
    while i < bytes.len()
        invariant
            s == bytes@,
            s == guid.spec_bytes(),
            0 <= seg_start <= i <= s.len(),
            seg@ == s.subrange(seg_start, i as int),
            forall|k: int| seg_start <= k < i ==> s[k] != 0x2D,
            seg_values(guid_segments(s)) == (match seg_values(
                guid_segments(s.skip(seg_start)),
            ) {
                Some(rest) => Some(out@ + rest),
                None => None,
            }),
        decreases s.len() - i,
    {
        let b = bytes[i];
        if b == 0x2D {
            proof {
                let rest = s.skip(seg_start);
                assert forall|k: int| 0 <= k < i - seg_start implies rest[k] != 0x2D by {
                    assert(rest[k] == s[seg_start + k]);
                }
                assert(rest[i - seg_start] == s[i as int]);
                lemma_first_dash_scan(rest, i - seg_start);
                assert(rest.take(i - seg_start) =~= seg@);
                assert(rest.skip(i - seg_start + 1) =~= s.skip(i as int + 1));
                assert(guid_segments(rest) == seq![seg@] + guid_segments(s.skip(i as int + 1)));
            }
            match parse_hex_bytes(seg.as_slice()) {
                Some(v) => {
                    proof {
                        let tailsegs = guid_segments(s.skip(i as int + 1));
                        if seg_values(tailsegs) is Some {
                            assert((seq![seg@] + tailsegs).drop_first() =~= tailsegs);
                            assert((seq![seg@] + tailsegs)[0] == seg@);
                            assert(out@ + (seq![v] + seg_values(tailsegs)->Some_0) =~= out@.push(
                                v,
                            ) + seg_values(tailsegs)->Some_0);
                        } else {
                            assert((seq![seg@] + tailsegs).drop_first() =~= tailsegs);
                            assert((seq![seg@] + tailsegs)[0] == seg@);
                        }
                    }
                    out.push(v);
                },
                None => {
                    proof {
                        let tailsegs = guid_segments(s.skip(i as int + 1));
                        assert((seq![seg@] + tailsegs)[0] == seg@);
                    }
                    let mut msg = String::from_str("invalid GUID segment in: ");
                    msg.append(guid);
                    return Err(msg);
                },
            }
            seg = Vec::new();
            proof {
                seg_start = i as int + 1;
                assert(seg@ =~= s.subrange(seg_start, i as int + 1));
            }
        } else {
            seg.push(b);
            proof {
                assert(seg@ =~= s.subrange(seg_start, i as int + 1));
            }
        }
        i = i + 1;
    }
    proof {
        let rest = s.skip(seg_start);
        assert forall|k: int| 0 <= k < rest.len() implies rest[k] != 0x2D by {
            assert(rest[k] == s[seg_start + k]);
        }
        lemma_first_dash_scan(rest, rest.len() as int);
        assert(rest =~= seg@);
        assert(guid_segments(rest) == seq![rest]);
        assert(seq![rest][0] == seg@);
        assert(seq![rest].drop_first() =~= Seq::<Seq<u8>>::empty());
        assert(seg_values(Seq::<Seq<u8>>::empty()) == Some(Seq::<u32>::empty()));
    }
    match parse_hex_bytes(seg.as_slice()) {
        Some(v) => {
            proof {
                assert(out@ + (seq![v] + Seq::<u32>::empty()) =~= out@.push(v));
            }
            out.push(v);
            Ok(out)
        },
        None => {
            let mut msg = String::from_str("invalid GUID segment in: ");
            msg.append(guid);
            Err(msg)
        },
    }
}

/// Relies on rand::random: draws a value of the asked-for type; nothing
/// is promised of which value comes back.
#[verifier::external_body]
fn random_usize() -> usize {
    rand::random::<usize>()
}

/// An uppercase hexadecimal digit character.
pub open spec fn spec_is_hex_char(c: char) -> bool {
    ('0' <= c && c <= '9') || ('A' <= c && c <= 'F')
}

/// One fresh GUID segment: eight uppercase hexadecimal digit characters,
/// whatever the random source yields.
pub fn random_guid_segment() -> (r: String)
    ensures
        r@.len() == 8,
        forall|i: int| 0 <= i < r@.len() ==> spec_is_hex_char(#[trigger] r@[i]),
{
    let mut s = String::from_str("");
    proof {
        reveal_strlit("");
    }
    let mut k: usize = 0;
    while k < 8
        invariant
            k <= 8,
            s@.len() == k,
            forall|i: int| 0 <= i < s@.len() ==> spec_is_hex_char(#[trigger] s@[i]),
        decreases 8 - k,
    {
        let d = random_usize() % 16;
        let c: &str = if d == 0 {
            "0"
        } else if d == 1 {
            "1"
        } else if d == 2 {
            "2"
        } else if d == 3 {
            "3"
        } else if d == 4 {
            "4"
        } else if d == 5 {
            "5"
        } else if d == 6 {
            "6"
        } else if d == 7 {
            "7"
        } else if d == 8 {
            "8"
        } else if d == 9 {
            "9"
        } else if d == 10 {
            "A"
        } else if d == 11 {
            "B"
        } else if d == 12 {
            "C"
        } else if d == 13 {
            "D"
        } else if d == 14 {
            "E"
        } else {
            "F"
        };
        proof {
            reveal_strlit("0");
            reveal_strlit("1");
            reveal_strlit("2");
            reveal_strlit("3");
            reveal_strlit("4");
            reveal_strlit("5");
            reveal_strlit("6");
            reveal_strlit("7");
            reveal_strlit("8");
            reveal_strlit("9");
            reveal_strlit("A");
            reveal_strlit("B");
            reveal_strlit("C");
            reveal_strlit("D");
            reveal_strlit("E");
            reveal_strlit("F");
        }
        s.append(c);
        k = k + 1;
    }
    s
}

/// A fresh dash-joined GUID of the asked-for number of segments: whatever
/// the random source yields, every ninth character is the joining dash
/// and every other character an uppercase hexadecimal digit, so the game
/// UI and `parse_guid` accept the result.
pub fn random_guid(segments: usize) -> (r: String)
    ensures
        segments > 0 ==> r@.len() == 9 * segments - 1,
        segments == 0 ==> r@.len() == 0,
        forall|i: int| 0 <= i < r@.len() && i % 9 == 8 ==> (#[trigger] r@[i]) == '-',
        forall|i: int| 0 <= i < r@.len() && i % 9 != 8 ==> spec_is_hex_char(#[trigger] r@[i]),
{
    let mut s = String::from_str("");
    proof {
        reveal_strlit("");
    }
    let mut k: usize = 0;
    while k < segments
        invariant
            k <= segments,
            k > 0 ==> s@.len() == 9 * k - 1,
            k == 0 ==> s@.len() == 0,
            forall|i: int| 0 <= i < s@.len() && i % 9 == 8 ==> (#[trigger] s@[i]) == '-',
            forall|i: int| 0 <= i < s@.len() && i % 9 != 8 ==> spec_is_hex_char(
                #[trigger] s@[i],
            ),
        decreases segments - k,
    {
        let ghost kk = k as int;
        if k > 0 {
            proof {
                reveal_strlit("-");
            }
            s.append("-");
            proof {
                assert((9 * kk - 1) % 9 == 8) by (nonlinear_arith)
                    requires
                        kk >= 1,
                ;
            }
        }
        let ghost s0 = s@;
        let seg = random_guid_segment();
        s.append(seg.as_str());
        proof {
            assert(s0.len() == 9 * kk);
            assert forall|i: int| 0 <= i < s@.len() && i % 9 == 8 implies (#[trigger] s@[i])
                == '-' by {
                if i >= s0.len() {
                    let j = i - 9 * kk;
                    assert(s@[i] == seg@[j]);
                    assert(i % 9 == j) by (nonlinear_arith)
                        requires
                            0 <= j < 8,
                            kk >= 0,
                            i == 9 * kk + j,
                    ;
                }
            }
            assert forall|i: int| 0 <= i < s@.len() && i % 9 != 8 implies spec_is_hex_char(
                #[trigger] s@[i],
            ) by {
                if i >= s0.len() {
                    let j = i - 9 * kk;
                    assert(s@[i] == seg@[j]);
                    assert(spec_is_hex_char(seg@[j]));
                }
            }
        }
        k = k + 1;
    }
    s
}

} // verus!
