//! A structured value type for timer metadata, action bundles and agent
//! bindings. Object keys are kept strictly sorted by their UTF-8 bytes, so a
//! value has exactly one canonical byte rendering.

use vstd::prelude::*;
use vstd::string::StrSliceExecFns;
use vstd::string::StringExecFns;

use crate::strutil::{dec_of_i64, fmt_i64, hex_digit};

verus! {

/// A JSON-like structured value. Object keys are held in strictly
/// ascending UTF-8 byte order (see [`json_wf`]); numbers are integral,
/// which is all the kernel ever stores.
#[derive(Debug)]
pub enum JsonValue {
    Null,
    Bool(bool),
    Int(i64),
    UInt(u64),
    Str(String),
    Arr(Vec<JsonValue>),
    Obj(Vec<(String, JsonValue)>),
}

/// The mathematical shape of a [`JsonValue`]: the same tree over sequences.
pub enum JsonModel {
    Null,
    Bool(bool),
    Int(int),
    Str(Seq<char>),
    Arr(Seq<JsonModel>),
    Obj(Seq<(Seq<char>, JsonModel)>),
}

/// The models of a sequence of values, element by element.
pub open spec fn jseq_view(s: Seq<JsonValue>) -> Seq<JsonModel>
    decreases s,
{
    if s.len() == 0 {
        Seq::empty()
    } else {
        jseq_view(s.drop_last()).push(s.last()@)
    }
}

/// The models of a sequence of key-value pairs, element by element.
pub open spec fn jfields_view(s: Seq<(String, JsonValue)>) -> Seq<(Seq<char>, JsonModel)>
    decreases s,
{
    if s.len() == 0 {
        Seq::empty()
    } else {
        jfields_view(s.drop_last()).push((s.last().0@, s.last().1@))
    }
}

impl View for JsonValue {
    type V = JsonModel;

    open spec fn view(&self) -> JsonModel
        decreases self,
    {
        match self {
            JsonValue::Null => JsonModel::Null,
            JsonValue::Bool(b) => JsonModel::Bool(*b),
            JsonValue::Int(n) => JsonModel::Int(*n as int),
            JsonValue::UInt(n) => JsonModel::Int(*n as int),
            JsonValue::Str(s) => JsonModel::Str(s@),
            JsonValue::Arr(items) => JsonModel::Arr(jseq_view(items@)),
            JsonValue::Obj(fields) => JsonModel::Obj(jfields_view(fields@)),
        }
    }
}

/// `jseq_view` maps element by element: same length, model at every index.
pub proof fn lemma_jseq_view_index(s: Seq<JsonValue>)
    ensures
        jseq_view(s).len() == s.len(),
        forall|i: int| 0 <= i < s.len() ==> #[trigger] jseq_view(s)[i] == s[i]@,
    decreases s.len(),
{
    if s.len() > 0 {
        lemma_jseq_view_index(s.drop_last());
        assert(jseq_view(s) == jseq_view(s.drop_last()).push(s.last()@));
        assert(jseq_view(s).len() == s.len());
        assert forall|i: int| 0 <= i < s.len() implies #[trigger] jseq_view(s)[i] == s[i]@ by {
            if i < s.len() - 1 {
                assert(s.drop_last()[i] == s[i]);
                assert(jseq_view(s)[i] == jseq_view(s.drop_last())[i]);
            } else {
                assert(s[i] == s.last());
                assert(jseq_view(s)[i] == s.last()@);
            }
        }
    }
}

/// `jfields_view` maps element by element: same length, key and model at
/// every index.
pub proof fn lemma_jfields_view_index(s: Seq<(String, JsonValue)>)
    ensures
        jfields_view(s).len() == s.len(),
        forall|i: int| 0 <= i < s.len() ==> #[trigger] jfields_view(s)[i] == (s[i].0@, s[i].1@),
    decreases s.len(),
{
    if s.len() > 0 {
        lemma_jfields_view_index(s.drop_last());
        assert(jfields_view(s) == jfields_view(s.drop_last()).push((s.last().0@, s.last().1@)));
        assert(jfields_view(s).len() == s.len());
        assert forall|i: int| 0 <= i < s.len() implies #[trigger] jfields_view(s)[i] == (
        s[i].0@,
        s[i].1@,
        ) by {
            if i < s.len() - 1 {
                assert(s.drop_last()[i] == s[i]);
                assert(jfields_view(s)[i] == jfields_view(s.drop_last())[i]);
            } else {
                assert(s[i] == s.last());
                assert(jfields_view(s)[i] == (s.last().0@, s.last().1@));
            }
        }
    }
}

/// Strict lexicographic order on byte sequences.
pub open spec fn bytes_lt(a: Seq<u8>, b: Seq<u8>) -> bool
    decreases a.len(),
{
    if b.len() == 0 {
        false
    } else if a.len() == 0 {
        true
    } else if a[0] != b[0] {
        a[0] < b[0]
    } else {
        bytes_lt(a.drop_first(), b.drop_first())
    }
}

/// The UTF-8 bytes by which object keys are ordered.
pub open spec fn key_bytes(s: Seq<char>) -> Seq<u8> {
    vstd::utf8::encode_utf8(s)
}

/// Lexicographic order is a strict total order: irreflexive, and of two
/// distinct byte sequences exactly one precedes the other.
pub proof fn lemma_bytes_lt_strict_total(a: Seq<u8>, b: Seq<u8>)
    ensures
        !(bytes_lt(a, b) && bytes_lt(b, a)),
        a != b ==> bytes_lt(a, b) || bytes_lt(b, a),
        bytes_lt(a, b) ==> a != b,
    decreases a.len(),
{
    if a.len() == 0 && b.len() == 0 {
        assert(a =~= b);
    }
    if a.len() > 0 && b.len() > 0 && a[0] == b[0] {
        lemma_bytes_lt_strict_total(a.drop_first(), b.drop_first());
        if a != b {
            assert(a.drop_first() != b.drop_first()) by {
                if a.drop_first() == b.drop_first() {
                    assert forall|k: int| 0 <= k < a.len() implies a[k] == b[k] by {
                        if k > 0 {
                            assert(a.drop_first()[k - 1] == b.drop_first()[k - 1]);
                        }
                    }
                    assert(a =~= b);
                }
            }
        }
        if a.drop_first() == b.drop_first() {
            assert forall|k: int| 0 <= k < a.len() implies a[k] == b[k] by {
                if k > 0 {
                    assert(a.drop_first()[k - 1] == b.drop_first()[k - 1]);
                }
            }
            assert(a =~= b);
        }
    }
}

/// Well-formedness of a structured value: every object holds its keys in
/// strictly ascending UTF-8 byte order, so keys are unique.
pub open spec fn json_wf(m: JsonModel) -> bool
    decreases m,
{
    match m {
        JsonModel::Null => true,
        JsonModel::Bool(_) => true,
        JsonModel::Int(n) => i64::MIN <= n <= u64::MAX,
        JsonModel::Str(_) => true,
        JsonModel::Arr(items) => forall|i: int|
            0 <= i < items.len() ==> json_wf(#[trigger] items[i]),
        JsonModel::Obj(fields) => {
            &&& forall|i: int| 0 <= i < fields.len() ==> json_wf((#[trigger] fields[i]).1)
            &&& forall|i: int, j: int|
                0 <= i < j < fields.len() ==> bytes_lt(
                    key_bytes((#[trigger] fields[i]).0),
                    key_bytes((#[trigger] fields[j]).0),
                )
        },
    }
}

impl JsonValue {
    /// A deep copy whose model is exactly this one's.
    #[verifier::loop_isolation(false)]
    pub fn duplicate(&self) -> (r: Self)
        ensures
            r@ == self@,
        decreases self,
    {
        match self {
            JsonValue::Null => JsonValue::Null,
            JsonValue::Bool(b) => JsonValue::Bool(*b),
            JsonValue::Int(n) => JsonValue::Int(*n),
            JsonValue::UInt(n) => JsonValue::UInt(*n),
            JsonValue::Str(s) => JsonValue::Str(s.clone()),
            JsonValue::Arr(items) => {
                let mut out: Vec<JsonValue> = Vec::new();
                let n = items.len();
                let mut i: usize = 0;
                while i < n
                    invariant
                        n == items@.len(),
                        0 <= i <= n,
                        out@.len() == i,
                        forall|j: int| 0 <= j < i ==> out@[j]@ == items@[j]@,
                    decreases n - i,
                {
                    proof {
                        broadcast use vstd::std_specs::vec::axiom_vec_index_decreases;

                        assert(decreases_to!(*items => items@[i as int]));
                    }
                    let item = items[i].duplicate();
                    out.push(item);
                    i += 1;
                }
                proof {
                    lemma_jseq_view_pointwise(out@, items@);
                }
                JsonValue::Arr(out)
            },
            JsonValue::Obj(fields) => {
                let mut out: Vec<(String, JsonValue)> = Vec::new();
                let n = fields.len();
                let mut i: usize = 0;
                while i < n
                    invariant
                        n == fields@.len(),
                        0 <= i <= n,
                        out@.len() == i,
                        forall|j: int|
                            0 <= j < i ==> (#[trigger] out@[j]).0@ == fields@[j].0@ && out@[j].1@
                                == fields@[j].1@,
                    decreases n - i,
                {
                    proof {
                        broadcast use vstd::std_specs::vec::axiom_vec_index_decreases;

                        assert(decreases_to!(*fields => fields@[i as int]));
                        assert(decreases_to!(fields@[i as int] => fields@[i as int].1));
                    }
                    let (k, v) = &fields[i];
                    let pair = (k.clone(), v.duplicate());
                    out.push(pair);
                    i += 1;
                }
                proof {
                    lemma_jfields_view_pointwise(out@, fields@);
                }
                JsonValue::Obj(out)
            },
        }
    }
}

/// Sequences whose elements have equal models have equal model sequences.
pub proof fn lemma_jseq_view_pointwise(a: Seq<JsonValue>, b: Seq<JsonValue>)
    requires
        a.len() == b.len(),
        forall|i: int| 0 <= i < a.len() ==> a[i]@ == b[i]@,
    ensures
        jseq_view(a) == jseq_view(b),
{
    lemma_jseq_view_index(a);
    lemma_jseq_view_index(b);
    assert(jseq_view(a) =~= jseq_view(b));
}

/// Pair sequences whose keys and values have equal views have equal model
/// sequences.
pub proof fn lemma_jfields_view_pointwise(a: Seq<(String, JsonValue)>, b: Seq<(String, JsonValue)>)
    requires
        a.len() == b.len(),
        forall|i: int| 0 <= i < a.len() ==> (#[trigger] a[i]).0@ == b[i].0@ && a[i].1@ == b[i].1@,
    ensures
        jfields_view(a) == jfields_view(b),
{
    lemma_jfields_view_index(a);
    lemma_jfields_view_index(b);
    assert(jfields_view(a) =~= jfields_view(b));
}

/// The model of an optional structured value.
pub open spec fn opt_json_view(o: Option<JsonValue>) -> Option<JsonModel> {
    match o {
        Some(v) => Some(v@),
        None => None,
    }
}

impl Clone for JsonValue {
    /// A deep copy whose model is exactly this one's.
    fn clone(&self) -> (r: Self)
        ensures
            r@ == self@,
    {
        self.duplicate()
    }
}

/// A deep copy of an optional structured value.
pub fn dup_opt_json(v: &Option<JsonValue>) -> (r: Option<JsonValue>)
    ensures
        opt_json_view(r) == opt_json_view(*v),
{
    match v {
        Some(inner) => Some(inner.duplicate()),
        None => None,
    }
}

/// Compares two strings by their UTF-8 bytes: negative means `a` precedes
/// `b`, zero means equal, positive means `b` precedes `a`.
#[verifier::loop_isolation(false)]
pub fn str_cmp_bytes(a: &str, b: &str) -> (r: i8)
    ensures
        r == -1 ==> bytes_lt(key_bytes(a@), key_bytes(b@)),
        r == 0 ==> a@ == b@,
        r == 1 ==> bytes_lt(key_bytes(b@), key_bytes(a@)),
        r == -1 || r == 0 || r == 1,
{
    let ab = a.as_bytes();
    let bb = b.as_bytes();
    proof {
        vstd::utf8::encode_utf8_decode_utf8(a@);
        vstd::utf8::encode_utf8_decode_utf8(b@);
    }
    let an = ab.len();
    let bn = bb.len();
    let mut i: usize = 0;
    loop
        invariant
            0 <= i <= an,
            0 <= i <= bn,
            ab@.take(i as int) =~= bb@.take(i as int),
        decreases an - i,
    {
        if i == an && i == bn {
            proof {
                assert(ab@.take(i as int) =~= ab@);
                assert(bb@.take(i as int) =~= bb@);
            }
            return 0;
        }
        if i == an {
            proof {
                lemma_bytes_lt_common_prefix(ab@, bb@, i as int);
            }
            return -1;
        }
        if i == bn {
            proof {
                lemma_bytes_lt_common_prefix(bb@, ab@, i as int);
            }
            return 1;
        }
        if ab[i] < bb[i] {
            proof {
                lemma_bytes_lt_common_prefix(ab@, bb@, i as int);
            }
            return -1;
        }
        if bb[i] < ab[i] {
            proof {
                lemma_bytes_lt_common_prefix(bb@, ab@, i as int);
            }
            return 1;
        }
        proof {
            assert(ab@.take(i + 1 as int) =~= bb@.take(i + 1 as int));
        }
        i += 1;
    }
}

/// If `a` and `b` agree on their first `i` bytes and either `a` ends there
/// or `a`'s next byte is smaller, then `a` precedes `b`.
proof fn lemma_bytes_lt_common_prefix(a: Seq<u8>, b: Seq<u8>, i: int)
    requires
        0 <= i <= a.len(),
        i <= b.len(),
        a.take(i) == b.take(i),
        i < b.len(),
        i == a.len() || (i < a.len() && a[i] < b[i]),
    ensures
        bytes_lt(a, b),
    decreases i,
{
    if i == 0 {
    } else {
        assert(a.take(i)[0] == b.take(i)[0]);
        assert(a.take(i)[0] == a[0]);
        assert(b.take(i)[0] == b[0]);
        assert(a.drop_first().take(i - 1) =~= a.take(i).drop_first());
        assert(b.drop_first().take(i - 1) =~= b.take(i).drop_first());
        assert(a.drop_first().take(i - 1) == b.drop_first().take(i - 1));
        if i < a.len() {
            assert(a.drop_first()[i - 1] == a[i]);
            assert(b.drop_first()[i - 1] == b[i]);
        }
        lemma_bytes_lt_common_prefix(a.drop_first(), b.drop_first(), i - 1);
    }
}

// ==========================================================================
// The canonical rendering: one character sequence per model.
// ==========================================================================

/// The escape of one character inside a JSON string: quotes and backslashes
/// are escaped, control characters become `\u00XX`, everything else stands
/// as itself.
pub open spec fn esc_char(c: char) -> Seq<char> {
    if c == '"' {
        seq!['\\', '"']
    } else if c == '\\' {
        seq!['\\', '\\']
    } else if (c as u32) < 0x20 {
        seq!['\\', 'u', '0', '0', hex_digit((c as u32 / 16) as nat), hex_digit((c as u32 % 16) as nat)]
    } else {
        seq![c]
    }
}

/// The escaped body of a JSON string.
pub open spec fn esc_str(s: Seq<char>) -> Seq<char>
    decreases s.len(),
{
    if s.len() == 0 {
        Seq::empty()
    } else {
        esc_char(s[0]) + esc_str(s.drop_first())
    }
}

/// A JSON string: the escaped body between quotes.
pub open spec fn canon_string(s: Seq<char>) -> Seq<char> {
    seq!['"'] + esc_str(s) + seq!['"']
}

/// The canonical rendering of a model: object fields in stored order —
/// which well-formed values keep sorted by key — with no whitespace.
pub open spec fn canon_json(m: JsonModel) -> Seq<char>
    decreases m,
{
    match m {
        JsonModel::Null => "null"@,
        JsonModel::Bool(b) => if b {
            "true"@
        } else {
            "false"@
        },
        JsonModel::Int(n) => dec_of_i64(n),
        JsonModel::Str(s) => canon_string(s),
        JsonModel::Arr(items) => seq!['['] + canon_items(items) + seq![']'],
        JsonModel::Obj(fields) => seq!['{'] + canon_fields(fields) + seq!['}'],
    }
}

/// Comma-separated renderings of array elements.
pub open spec fn canon_items(items: Seq<JsonModel>) -> Seq<char>
    decreases items,
{
    if items.len() == 0 {
        Seq::empty()
    } else if items.len() == 1 {
        canon_json(items[0])
    } else {
        canon_items(items.drop_last()) + seq![','] + canon_json(items.last())
    }
}

/// Comma-separated `"key":value` renderings of object fields.
pub open spec fn canon_fields(fields: Seq<(Seq<char>, JsonModel)>) -> Seq<char>
    decreases fields,
{
    if fields.len() == 0 {
        Seq::empty()
    } else if fields.len() == 1 {
        canon_string(fields[0].0) + seq![':'] + canon_json(fields[0].1)
    } else {
        canon_fields(fields.drop_last()) + seq![','] + canon_string(fields.last().0) + seq![':']
            + canon_json(fields.last().1)
    }
}

/// Appending one character to the escaped body appends its escape.
pub proof fn lemma_esc_str_push(s: Seq<char>, i: int)
    requires
        0 <= i < s.len(),
    ensures
        esc_str(s.take(i + 1)) == esc_str(s.take(i)) + esc_char(s[i]),
    decreases i,
{
    if i == 0 {
        assert(s.take(1).drop_first() =~= Seq::<char>::empty());
        assert(s.take(1)[0] == s[0]);
        assert(s.take(0) =~= Seq::<char>::empty());
        assert(esc_str(s.take(1)) =~= esc_str(s.take(0)) + esc_char(s[0]));
    } else {
        lemma_esc_str_push(s.drop_first(), i - 1);
        assert(s.take(i + 1).drop_first() =~= s.drop_first().take(i));
        assert(s.take(i).drop_first() =~= s.drop_first().take(i - 1));
        assert(s.take(i + 1)[0] == s[0]);
        assert(s.take(i)[0] == s[0]);
        assert(esc_str(s.take(i + 1)) =~= esc_str(s.take(i)) + esc_char(s[i]));
    }
}

/// Writes the escaped body of `s` onto `out`.
#[verifier::loop_isolation(false)]
fn write_escaped(s: &str, out: &mut String)
    ensures
        final(out)@ == old(out)@ + esc_str(s@),
{
    proof {
        reveal_strlit("\\\"");
        reveal_strlit("\\\\");
        reveal_strlit("\\u00");
    }
    let n = s.unicode_len();
    let mut i: usize = 0;
    while i < n
        invariant
            n == s@.len(),
            0 <= i <= n,
            out@ == old(out)@ + esc_str(s@.take(i as int)),
        decreases n - i,
    {
        let c = s.get_char(i);
        if c == '"' {
            out.append("\\\"");
        } else if c == '\\' {
            out.append("\\\\");
        } else if (c as u32) < 0x20 {
            let code = c as u32;
            out.append("\\u00");
            out.append(crate::strutil::hex_digit_str((code / 16) as u8));
            out.append(crate::strutil::hex_digit_str((code % 16) as u8));
        } else {
            out.append(s.substring_char(i, i + 1));
            proof {
                assert(s@.subrange(i as int, i + 1) =~= seq![s@[i as int]]);
            }
        }
        proof {
            lemma_esc_str_push(s@, i as int);
        }
        i += 1;
    }
    proof {
        assert(s@.take(n as int) =~= s@);
    }
}

/// Writes the canonical rendering of `v` onto `out`.
#[verifier::loop_isolation(false)]
#[verifier::rlimit(100)]
pub fn write_canon(v: &JsonValue, out: &mut String)
    ensures
        final(out)@ == old(out)@ + canon_json(v@),
    decreases v,
{
    proof {
        reveal_strlit("\"");
        reveal_strlit("[");
        reveal_strlit("]");
        reveal_strlit("{");
        reveal_strlit("}");
        reveal_strlit(",");
        reveal_strlit(":");
    }
    match v {
        JsonValue::Null => {
            out.append("null");
        },
        JsonValue::Bool(b) => {
            if *b {
                out.append("true");
            } else {
                out.append("false");
            }
        },
        JsonValue::Int(n) => {
            let rendered = fmt_i64(*n);
            out.append(rendered.as_str());
        },
        JsonValue::UInt(n) => {
            let rendered = crate::strutil::fmt_u64(*n);
            out.append(rendered.as_str());
        },
        JsonValue::Str(s) => {
            out.append("\"");
            write_escaped(s.as_str(), out);
            out.append("\"");
            proof {
                assert(out@ =~= old(out)@ + canon_json(v@));
            }
        },
        JsonValue::Arr(items) => {
            out.append("[");
            let n = items.len();
            let mut i: usize = 0;
            while i < n
                invariant
                    n == items@.len(),
                    0 <= i <= n,
                    out@ == old(out)@ + seq!['['] + canon_items(jseq_view(items@).take(i as int)),
                decreases n - i,
            {
                proof {
                    broadcast use vstd::std_specs::vec::axiom_vec_index_decreases;

                    assert(decreases_to!(*items => items@[i as int]));
                    lemma_jseq_view_index(items@);
                }
                if i > 0 {
                    out.append(",");
                }
                write_canon(&items[i], out);
                proof {
                    let jv = jseq_view(items@);
                    assert(jv.take(i + 1).drop_last() =~= jv.take(i as int));
                    assert(jv.take(i + 1).last() == jv[i as int]);
                    if i == 0 {
                        assert(jv.take(1)[0] == jv[0]);
                        assert(canon_items(jv.take(1)) == canon_json(jv[0]));
                        assert(canon_items(jv.take(0)) =~= Seq::<char>::empty());
                    }
                    assert(out@ =~= old(out)@ + seq!['['] + canon_items(jv.take(i + 1)));
                }
                i += 1;
            }
            out.append("]");
            proof {
                lemma_jseq_view_index(items@);
                assert(jseq_view(items@).take(n as int) =~= jseq_view(items@));
                assert(out@ =~= old(out)@ + canon_json(v@));
            }
        },
        JsonValue::Obj(fields) => {
            out.append("{");
            let n = fields.len();
            let mut i: usize = 0;
            while i < n
                invariant
                    n == fields@.len(),
                    0 <= i <= n,
                    out@ == old(out)@ + seq!['{'] + canon_fields(
                        jfields_view(fields@).take(i as int),
                    ),
                decreases n - i,
            {
                proof {
                    broadcast use vstd::std_specs::vec::axiom_vec_index_decreases;

                    assert(decreases_to!(*fields => fields@[i as int]));
                    assert(decreases_to!(fields@[i as int] => fields@[i as int].1));
                    lemma_jfields_view_index(fields@);
                }
                if i > 0 {
                    out.append(",");
                }
                let (k, val) = &fields[i];
                out.append("\"");
                write_escaped(k.as_str(), out);
                out.append("\"");
                out.append(":");
                write_canon(val, out);
                proof {
                    let fv = jfields_view(fields@);
                    assert(fv.take(i + 1).drop_last() =~= fv.take(i as int));
                    assert(fv.take(i + 1).last() == fv[i as int]);
                    if i == 0 {
                        assert(fv.take(1)[0] == fv[0]);
                        assert(canon_fields(fv.take(0)) =~= Seq::<char>::empty());
                    }
                    assert(out@ =~= old(out)@ + seq!['{'] + canon_fields(fv.take(i + 1)));
                }
                i += 1;
            }
            out.append("}");
            proof {
                lemma_jfields_view_index(fields@);
                assert(jfields_view(fields@).take(n as int) =~= jfields_view(fields@));
                assert(out@ =~= old(out)@ + canon_json(v@));
            }
        },
    }
}

} // verus!
