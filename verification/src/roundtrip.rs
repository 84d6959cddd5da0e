//! Round-trip law of the codec: parsing a canonically serialized JSON
//! document yields exactly the original value.

use vstd::prelude::*;

use crate::json::{
    esc_byte, esc_bytes, hex_digit, hex_val, is_digit, is_hex, is_ws, parse_digits, parse_elems,
    parse_items, parse_members, parse_pairs, parse_str_body, parse_str_cont, parse_val, ser_elems,
    ser_member, ser_members, ser_uint, ser_val, skip_ws, spec_parse, JsonVal,
};

verus! {

/// Powers of ten.
pub open spec fn pow10(k: nat) -> nat
    decreases k,
{
    if k == 0 {
        1
    } else {
        10 * pow10((k - 1) as nat)
    }
}

/// Every byte of a serialized integer is a decimal digit, and only
/// zero itself begins with the digit zero.
proof fn lemma_ser_uint_digits(n: u64)
    ensures
        ser_uint(n).len() >= 1,
        forall|x: int| 0 <= x < ser_uint(n).len() ==> is_digit(#[trigger] ser_uint(n)[x]),
        ser_uint(n)[0] == 48 ==> n == 0,
    decreases n,
{
    if n >= 10 {
        lemma_ser_uint_digits(n / 10);
        assert(ser_uint(n)[0] == ser_uint(n / 10)[0]);
    }
}

/// A serialized value is never empty, and its first byte is neither
/// whitespace nor one of the closing or separating punctuation bytes.
proof fn lemma_ser_val_first(v: JsonVal)
    ensures
        ser_val(v).len() >= 1,
        !is_ws(ser_val(v)[0]),
        ser_val(v)[0] != 93,
        ser_val(v)[0] != 125,
        ser_val(v)[0] != 44,
        ser_val(v)[0] != 58,
{
    match v {
        JsonVal::UInt(n) => {
            lemma_ser_uint_digits(n);
        },
        _ => {},
    }
}

/// Reading the digits of a serialized integer folds it back onto the
/// accumulator.
proof fn lemma_parse_digits_ser_uint(n: u64, s: Seq<u8>, i: int, acc: nat)
    requires
        0 <= i,
        i + ser_uint(n).len() <= s.len(),
        s.subrange(i, i + ser_uint(n).len()) == ser_uint(n),
    ensures
        parse_digits(s, i, acc) == parse_digits(
            s,
            i + ser_uint(n).len(),
            (acc * pow10(ser_uint(n).len() as nat) + n) as nat,
        ),
    decreases n,
{
    let l = ser_uint(n).len() as int;
    if n < 10 {
        assert(s[i] == ser_uint(n)[0]) by {
            assert(s.subrange(i, i + l)[0] == s[i]);
        };
        assert(is_digit(s[i]));
        assert(pow10(1) == 10) by {
            reveal_with_fuel(pow10, 2);
        };
        assert(parse_digits(s, i, acc) == parse_digits(s, i + 1, (acc * 10 + n) as nat));
    } else {
        let hi = ser_uint(n / 10);
        let l1 = hi.len() as int;
        assert forall|x: int| 0 <= x < l1 implies s.subrange(i, i + l1)[x] == hi[x] by {
            assert(s.subrange(i, i + l)[x] == s[i + x]);
            assert(ser_uint(n)[x] == hi[x]);
        }
        assert(s.subrange(i, i + l1) =~= hi);
        lemma_parse_digits_ser_uint((n / 10) as u64, s, i, acc);
        let mid = (acc * pow10(l1 as nat) + n / 10) as nat;
        assert(s[i + l1] == ser_uint(n)[l1]) by {
            assert(s.subrange(i, i + l)[l1] == s[i + l1]);
        };
        assert(s[i + l1] == 48 + n % 10);
        assert(is_digit(s[i + l1]));
        assert(parse_digits(s, i + l1, mid) == parse_digits(
            s,
            i + l1 + 1,
            (mid * 10 + n % 10) as nat,
        ));
        assert(mid * 10 + n % 10 == acc * pow10((l1 + 1) as nat) + n) by {
            assert(pow10((l1 + 1) as nat) == 10 * pow10(l1 as nat));
            assert((acc * pow10(l1 as nat) + n / 10) * 10 == acc * (pow10(l1 as nat) * 10) + (n
                / 10) * 10) by (nonlinear_arith);
            assert((n / 10) * 10 + n % 10 == n);
        };
    }
}

/// Parsing an escaped string body returns the original content bytes
/// and stops just past the closing quote.
proof fn lemma_parse_esc(c: Seq<u8>, s: Seq<u8>, i: int)
    requires
        0 <= i,
        i + esc_bytes(c).len() + 1 <= s.len(),
        s.subrange(i, i + esc_bytes(c).len()) == esc_bytes(c),
        s[i + esc_bytes(c).len()] == 34,
    ensures
        parse_str_body(s, i) == Some((c, i + esc_bytes(c).len() + 1)),
    decreases c.len(),
{
    let e = esc_bytes(c).len() as int;
    if c.len() == 0 {
        assert(s[i] == 34);
        assert(c =~= Seq::<u8>::empty());
    } else {
        let b = c[0];
        let rest = c.drop_first();
        let e0 = esc_byte(b);
        let e0l = e0.len() as int;
        assert(esc_bytes(c) == e0 + esc_bytes(rest));
        assert forall|x: int| 0 <= x < e0l implies s[i + x] == e0[x] by {
            assert(s.subrange(i, i + e) == esc_bytes(c));
            assert(s.subrange(i, i + e)[x] == s[i + x]);
            assert(esc_bytes(c)[x] == e0[x]);
        }
        // The tail of the match is the escaped rest, still closed by a quote.
        let i2 = i + e0l;
        let er = esc_bytes(rest).len() as int;
        assert forall|x: int| 0 <= x < er implies s.subrange(i2, i2 + er)[x] == esc_bytes(rest)[x]
            by {
            assert(s.subrange(i, i + e)[e0l + x] == s[i + e0l + x]);
            assert(esc_bytes(c)[e0l + x] == esc_bytes(rest)[x]);
        }
        assert(s.subrange(i2, i2 + er) =~= esc_bytes(rest));
        assert(s[i2 + er] == 34);
        lemma_parse_esc(rest, s, i2);
        assert(seq![b] + rest =~= c);
        if b == 34 {
            assert(s[i] == 92 && s[i + 1] == 34);
            assert(parse_str_body(s, i) == parse_str_cont(s, i + 2, 34));
        } else if b == 92 {
            assert(s[i] == 92 && s[i + 1] == 92);
            assert(parse_str_body(s, i) == parse_str_cont(s, i + 2, 92));
        } else if b < 32 {
            assert(s[i] == 92 && s[i + 1] == 117 && s[i + 2] == 48 && s[i + 3] == 48);
            assert(s[i + 4] == hex_digit(b / 16) && s[i + 5] == hex_digit(b % 16));
            assert(is_hex(hex_digit(b / 16)) && hex_val(hex_digit(b / 16)) == b / 16);
            assert(is_hex(hex_digit(b % 16)) && hex_val(hex_digit(b % 16)) == b % 16);
            assert((hex_val(s[i + 4]) * 16 + hex_val(s[i + 5])) as u8 == b);
            assert(parse_str_body(s, i) == parse_str_cont(s, i + 6, b));
        } else {
            assert(s[i] == b);
            assert(parse_str_body(s, i) == parse_str_cont(s, i + 1, b));
        }
    }
}

/// Parsing a serialized value embedded in a larger input consumes
/// exactly its bytes and returns exactly the value. The byte after it,
/// if any, must not be a digit, so that a serialized number is not
/// extended by what follows; in every serialized context the next byte
/// is a separator or closer, which satisfies this.
pub proof fn lemma_parse_ser_at(v: JsonVal, s: Seq<u8>, i: int)
    requires
        0 <= i,
        i + ser_val(v).len() <= s.len(),
        s.subrange(i, i + ser_val(v).len()) == ser_val(v),
        i + ser_val(v).len() == s.len() || !is_digit(s[i + ser_val(v).len()]),
    ensures
        parse_val(s, i) == Some((v, i + ser_val(v).len())),
    decreases v, 0int, 0int,
{
    let l = ser_val(v).len() as int;
    lemma_ser_val_first(v);
    assert forall|x: int| 0 <= x < l implies s[i + x] == ser_val(v)[x] by {
        assert(s.subrange(i, i + l)[x] == s[i + x]);
    }
    assert(!is_ws(s[i]));
    assert(skip_ws(s, i) == i);
    match v {
        JsonVal::Null => {
            assert(s[i] == 110 && s[i + 1] == 117 && s[i + 2] == 108 && s[i + 3] == 108);
        },
        JsonVal::Bool(b) => {
            if b {
                assert(s[i] == 116 && s[i + 1] == 114 && s[i + 2] == 117 && s[i + 3] == 101);
            } else {
                assert(s[i] == 102 && s[i + 1] == 97 && s[i + 2] == 108 && s[i + 3] == 115 && s[i
                    + 4] == 101);
            }
        },
        JsonVal::UInt(n) => {
            lemma_ser_uint_digits(n);
            assert(is_digit(s[i]));
            if s[i] == 48 {
                // only zero starts with a zero digit, and nothing
                // after its single byte is a digit
                assert(n == 0);
                assert(l == 1);
            }
            lemma_parse_digits_ser_uint(n, s, i, 0);
            assert(0 * pow10(l as nat) + n == n);
            assert(parse_digits(s, i + l, n as nat) == (n as nat, i + l));
            assert(parse_digits(s, i, 0) == (n as nat, i + l));
        },
        JsonVal::Str(c) => {
            let eb = esc_bytes(c).len() as int;
            assert(l == eb + 2);
            assert(s[i] == 34);
            assert forall|x: int| 0 <= x < eb implies s.subrange(i + 1, i + 1 + eb)[x]
                == esc_bytes(c)[x] by {
                assert(s[i + 1 + x] == ser_val(v)[1 + x]);
                assert(ser_val(v)[1 + x] == esc_bytes(c)[x]);
            }
            assert(s.subrange(i + 1, i + 1 + eb) =~= esc_bytes(c));
            assert(s[i + 1 + eb] == ser_val(v)[1 + eb]);
            assert(s[i + 1 + eb] == 34);
            lemma_parse_esc(c, s, i + 1);
        },
        JsonVal::Arr(a) => {
            let li = ser_elems(a, 0).len() as int;
            assert(l == li + 2);
            assert(s[i] == 91);
            assert forall|x: int| 0 <= x < li implies s.subrange(i + 1, i + 1 + li)[x] == ser_elems(
                a,
                0,
            )[x] by {
                assert(s[i + 1 + x] == ser_val(v)[1 + x]);
                assert(ser_val(v)[1 + x] == ser_elems(a, 0)[x]);
            }
            assert(s.subrange(i + 1, i + 1 + li) =~= ser_elems(a, 0));
            assert(s[i + 1 + li] == ser_val(v)[1 + li]);
            assert(s[i + 1 + li] == 93);
            lemma_parse_elems_ser(a, 0, s, i + 1);
            assert(a.skip(0) =~= a);
        },
        JsonVal::Obj(m) => {
            let li = ser_members(m, 0).len() as int;
            assert(l == li + 2);
            assert(s[i] == 123);
            assert forall|x: int| 0 <= x < li implies s.subrange(i + 1, i + 1 + li)[x]
                == ser_members(m, 0)[x] by {
                assert(s[i + 1 + x] == ser_val(v)[1 + x]);
                assert(ser_val(v)[1 + x] == ser_members(m, 0)[x]);
            }
            assert(s.subrange(i + 1, i + 1 + li) =~= ser_members(m, 0));
            assert(s[i + 1 + li] == ser_val(v)[1 + li]);
            assert(s[i + 1 + li] == 125);
            lemma_parse_members_ser(m, 0, s, i + 1);
            assert(m.skip(0) =~= m);
        },
    }
}

/// Companion of `lemma_parse_ser_at` for the elements of an array,
/// from index `k` on, closed by a bracket.
proof fn lemma_parse_elems_ser(a: Seq<JsonVal>, k: int, s: Seq<u8>, i: int)
    requires
        0 <= k <= a.len(),
        0 <= i,
        i + ser_elems(a, k).len() + 1 <= s.len(),
        s.subrange(i, i + ser_elems(a, k).len()) == ser_elems(a, k),
        s[i + ser_elems(a, k).len()] == 93,
    ensures
        parse_elems(s, i) == Some((a.skip(k), i + ser_elems(a, k).len() + 1)),
    decreases a, a.len() - k, 1int,
{
    let lt = ser_elems(a, k).len() as int;
    assert forall|x: int| 0 <= x < lt implies s[i + x] == ser_elems(a, k)[x] by {
        assert(s.subrange(i, i + lt)[x] == s[i + x]);
    }
    if k == a.len() {
        assert(lt == 0);
        assert(s[i] == 93);
        assert(skip_ws(s, i) == i);
        assert(a.skip(k) =~= Seq::<JsonVal>::empty());
    } else {
        lemma_ser_val_first(a[k]);
        assert(s[i] == ser_val(a[k])[0]) by {
            assert(s.subrange(i, i + lt)[0] == s[i]);
            assert(ser_elems(a, k)[0] == ser_val(a[k])[0]);
        };
        assert(skip_ws(s, i) == i);
        lemma_parse_items_ser(a, k, s, i);
    }
}

/// Companion of `lemma_parse_elems_ser` for a non-empty tail of
/// elements.
proof fn lemma_parse_items_ser(a: Seq<JsonVal>, k: int, s: Seq<u8>, i: int)
    requires
        0 <= k < a.len(),
        0 <= i,
        i + ser_elems(a, k).len() + 1 <= s.len(),
        s.subrange(i, i + ser_elems(a, k).len()) == ser_elems(a, k),
        s[i + ser_elems(a, k).len()] == 93,
    ensures
        parse_items(s, i) == Some((a.skip(k), i + ser_elems(a, k).len() + 1)),
    decreases a, a.len() - k, 0int,
{
    let lt = ser_elems(a, k).len() as int;
    assert forall|x: int| 0 <= x < lt implies s[i + x] == ser_elems(a, k)[x] by {
        assert(s.subrange(i, i + lt)[x] == s[i + x]);
    }
    {
        let l0 = ser_val(a[k]).len() as int;
        lemma_ser_val_first(a[k]);
        if k == a.len() - 1 {
            assert(ser_elems(a, k) == ser_val(a[k]));
            assert(lt == l0);
            assert(s[i + l0] == 93);
            lemma_parse_ser_at(a[k], s, i);
            assert(s[i] == ser_val(a[k])[0]);
            assert(skip_ws(s, i) == i);
            assert(skip_ws(s, i + l0) == i + l0);
            assert(seq![a[k]] =~= a.skip(k));
        } else {
            assert(ser_elems(a, k) == ser_val(a[k]) + seq![44u8] + ser_elems(a, k + 1));
            let l1 = ser_elems(a, k + 1).len() as int;
            assert(lt == l0 + 1 + l1);
            assert forall|x: int| 0 <= x < l0 implies s.subrange(i, i + l0)[x] == ser_val(a[k])[x]
                by {
                assert(s[i + x] == ser_elems(a, k)[x]);
                assert(ser_elems(a, k)[x] == ser_val(a[k])[x]);
            }
            assert(s.subrange(i, i + l0) =~= ser_val(a[k]));
            assert(s[i + l0] == ser_elems(a, k)[l0]);
            assert(ser_elems(a, k)[l0] == 44);
            lemma_parse_ser_at(a[k], s, i);
            assert(s[i] == ser_val(a[k])[0]);
            assert(skip_ws(s, i) == i);
            assert(skip_ws(s, i + l0) == i + l0);
            let i2 = i + l0 + 1;
            assert forall|x: int| 0 <= x < l1 implies #[trigger] s.subrange(i2, i2 + l1)[x]
                == ser_elems(a, k + 1)[x] by {
                assert(s[i2 + x] == ser_elems(a, k)[l0 + 1 + x]);
            }
            assert(s.subrange(i2, i2 + l1) =~= ser_elems(a, k + 1));
            assert(s[i2 + l1] == 93);
            lemma_parse_items_ser(a, k + 1, s, i2);
            assert(seq![a[k]] + a.skip(k + 1) =~= a.skip(k));
        }
    }
}

/// Companion of `lemma_parse_ser_at` for the members of an object,
/// from index `k` on, closed by a brace.
proof fn lemma_parse_members_ser(m: Seq<(Seq<u8>, JsonVal)>, k: int, s: Seq<u8>, i: int)
    requires
        0 <= k <= m.len(),
        0 <= i,
        i + ser_members(m, k).len() + 1 <= s.len(),
        s.subrange(i, i + ser_members(m, k).len()) == ser_members(m, k),
        s[i + ser_members(m, k).len()] == 125,
    ensures
        parse_members(s, i) == Some((m.skip(k), i + ser_members(m, k).len() + 1)),
    decreases m, m.len() - k, 1int,
{
    let lt = ser_members(m, k).len() as int;
    assert forall|x: int| 0 <= x < lt implies s[i + x] == ser_members(m, k)[x] by {
        assert(s.subrange(i, i + lt)[x] == s[i + x]);
    }
    if k == m.len() {
        assert(lt == 0);
        assert(s[i] == 125);
        assert(skip_ws(s, i) == i);
        assert(m.skip(k) =~= Seq::<(Seq<u8>, JsonVal)>::empty());
    } else {
        assert(s[i] == ser_member(m[k])[0]) by {
            assert(s.subrange(i, i + lt)[0] == s[i]);
            assert(ser_members(m, k)[0] == ser_member(m[k])[0]);
        };
        assert(s[i] == 34);
        assert(skip_ws(s, i) == i);
        lemma_parse_pairs_ser(m, k, s, i);
    }
}

/// Companion of `lemma_parse_members_ser` for a non-empty tail of
/// members.
proof fn lemma_parse_pairs_ser(m: Seq<(Seq<u8>, JsonVal)>, k: int, s: Seq<u8>, i: int)
    requires
        0 <= k < m.len(),
        0 <= i,
        i + ser_members(m, k).len() + 1 <= s.len(),
        s.subrange(i, i + ser_members(m, k).len()) == ser_members(m, k),
        s[i + ser_members(m, k).len()] == 125,
    ensures
        parse_pairs(s, i) == Some((m.skip(k), i + ser_members(m, k).len() + 1)),
    decreases m, m.len() - k, 0int,
{
    let lt = ser_members(m, k).len() as int;
    assert forall|x: int| 0 <= x < lt implies s[i + x] == ser_members(m, k)[x] by {
        assert(s.subrange(i, i + lt)[x] == s[i + x]);
    }
    {
        let key = m[k].0;
        let val = m[k].1;
        let e = esc_bytes(key).len() as int;
        let lv = ser_val(val).len() as int;
        let lm = ser_member(m[k]).len() as int;
        assert(ser_member(m[k]) == seq![34u8] + esc_bytes(key) + seq![34u8, 58u8] + ser_val(val));
        assert(lm == e + 3 + lv);
        let last = k == m.len() - 1;
        if last {
            assert(ser_members(m, k) == ser_member(m[k]));
        } else {
            assert(ser_members(m, k) == ser_member(m[k]) + seq![44u8] + ser_members(m, k + 1));
        }
        assert forall|x: int| 0 <= x < lm implies s[i + x] == ser_member(m[k])[x] by {
            assert(s[i + x] == ser_members(m, k)[x]);
        }
        assert(s[i] == ser_member(m[k])[0]) by {
            assert(s.subrange(i, i + lt)[0] == s[i]);
            assert(ser_members(m, k)[0] == ser_member(m[k])[0]);
        };
        assert(s[i] == 34);
        assert(skip_ws(s, i) == i);
        // the key string, closed by its quote
        assert forall|x: int| 0 <= x < e implies s.subrange(i + 1, i + 1 + e)[x] == esc_bytes(
            key,
        )[x] by {
            assert(s[i + 1 + x] == ser_member(m[k])[1 + x]);
            assert(ser_member(m[k])[1 + x] == esc_bytes(key)[x]);
        }
        assert(s.subrange(i + 1, i + 1 + e) =~= esc_bytes(key));
        assert(s[i + 1 + e] == ser_member(m[k])[1 + e]);
        assert(s[i + 1 + e] == 34);
        lemma_parse_esc(key, s, i + 1);
        // the colon
        assert(s[i + 2 + e] == ser_member(m[k])[2 + e]);
        assert(s[i + 2 + e] == 58);
        assert(skip_ws(s, i + 2 + e) == i + 2 + e);
        // the value, followed by a comma or the closing brace
        let iv = i + 3 + e;
        assert forall|x: int| 0 <= x < lv implies s.subrange(iv, iv + lv)[x] == ser_val(val)[x] by {
            assert(s[iv + x] == ser_member(m[k])[3 + e + x]);
            assert(ser_member(m[k])[3 + e + x] == ser_val(val)[x]);
        }
        assert(s.subrange(iv, iv + lv) =~= ser_val(val));
        if last {
            assert(s[iv + lv] == 125);
            lemma_parse_ser_at(val, s, iv);
            assert(skip_ws(s, iv + lv) == iv + lv);
            assert(seq![(key, val)] =~= m.skip(k));
            assert(parse_pairs(s, i) == Some((m.skip(k), i + lt + 1)));
        } else {
            assert(s[iv + lv] == ser_members(m, k)[lm]);
            assert(s[iv + lv] == 44);
            lemma_parse_ser_at(val, s, iv);
            assert(skip_ws(s, iv + lv) == iv + lv);
            let i2 = i + lm + 1;
            let l1 = ser_members(m, k + 1).len() as int;
            assert(lt == lm + 1 + l1);
            assert forall|x: int| 0 <= x < l1 implies #[trigger] s.subrange(i2, i2 + l1)[x]
                == ser_members(m, k + 1)[x] by {
                assert(s[i2 + x] == ser_members(m, k)[lm + 1 + x]);
            }
            assert(s.subrange(i2, i2 + l1) =~= ser_members(m, k + 1));
            assert(s[i2 + l1] == 125);
            lemma_parse_pairs_ser(m, k + 1, s, i2);
            assert(seq![(key, val)] + m.skip(k + 1) =~= m.skip(k));
            assert(parse_pairs(s, i) == Some((m.skip(k), i + lt + 1)));
        }
    }
}

/// The round-trip law of the codec: parsing a canonically serialized
/// document returns exactly the value that was serialized.
pub proof fn lemma_parse_ser_roundtrip(v: JsonVal)
    ensures
        spec_parse(ser_val(v)) == Some(v),
{
    let s = ser_val(v);
    assert(s.subrange(0, s.len() as int) =~= s);
    lemma_parse_ser_at(v, s, 0);
    assert(skip_ws(s, s.len() as int) == s.len());
}

/// Serialization has no hidden state: equal documents serialize to
/// identical bytes. Every operation's `encode` is pinned to `ser_val`
/// of the request's document, so repeated encodings of one request
/// value are byte-identical.
pub proof fn lemma_ser_deterministic(v1: JsonVal, v2: JsonVal)
    requires
        v1 == v2,
    ensures
        ser_val(v1) == ser_val(v2),
{
}

/// Round trip of an encoded authenticate request: parsing the payload
/// gives back the request's document, field for field, with unset
/// optional fields absent.
pub proof fn lemma_authenticate_roundtrip(r: crate::requests::Authenticate)
    ensures
        spec_parse(ser_val(crate::requests::authenticate_json(r))) == Some(
            crate::requests::authenticate_json(r),
        ),
{
    lemma_parse_ser_roundtrip(crate::requests::authenticate_json(r));
}

/// Round trip of an encoded refresh request.
pub proof fn lemma_refresh_roundtrip(r: crate::requests::Refresh)
    ensures
        spec_parse(ser_val(crate::requests::refresh_json(r))) == Some(
            crate::requests::refresh_json(r),
        ),
{
    lemma_parse_ser_roundtrip(crate::requests::refresh_json(r));
}

/// Round trip of an encoded validate request.
pub proof fn lemma_validate_roundtrip(r: crate::requests::Validate)
    ensures
        spec_parse(ser_val(crate::requests::validate_json(r))) == Some(
            crate::requests::validate_json(r),
        ),
{
    lemma_parse_ser_roundtrip(crate::requests::validate_json(r));
}

/// Round trip of an encoded signout request.
pub proof fn lemma_signout_roundtrip(r: crate::requests::Signout)
    ensures
        spec_parse(ser_val(crate::requests::signout_json(r))) == Some(
            crate::requests::signout_json(r),
        ),
{
    lemma_parse_ser_roundtrip(crate::requests::signout_json(r));
}

/// Round trip of an encoded invalidate request.
pub proof fn lemma_invalidate_roundtrip(r: crate::requests::Invalidate)
    ensures
        spec_parse(ser_val(crate::requests::invalidate_json(r))) == Some(
            crate::requests::invalidate_json(r),
        ),
{
    lemma_parse_ser_roundtrip(crate::requests::invalidate_json(r));
}

} // verus!
