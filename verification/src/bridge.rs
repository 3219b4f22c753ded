//! The command dispatcher's marshalling: an incoming transport record
//! arrives as a list of named fields; exactly the five snake_case fields of
//! a transport record are accepted, each once, with the right value kind.
//! Anything else is rejected as a bad request. The re-encode command
//! validates the record and hands the image to the codec.

use vstd::prelude::*;

use crate::codec::{base64_of, encode_post, is_base64, reencode, webp_accepts, WEBP_MAX_DIMENSION};
use crate::names::rewritten_name;
use crate::types::{ApiError, Image};

verus! {

/// The value carried by one field of an incoming record.
pub enum FieldValue {
    Text(String),
    Number(u32),
}

/// One field of an incoming record: a snake_case key and its value.
pub struct Field {
    pub key: String,
    pub value: FieldValue,
}

/// The text a field carries (meaningful for text fields).
pub open spec fn text_of(v: FieldValue) -> Seq<char> {
    match v {
        FieldValue::Text(s) => s@,
        FieldValue::Number(_) => Seq::empty(),
    }
}

/// The number a field carries (meaningful for numeric fields).
pub open spec fn number_of(v: FieldValue) -> u32 {
    match v {
        FieldValue::Text(_) => 0,
        FieldValue::Number(n) => n,
    }
}

/// The five field names a transport record may carry.
pub open spec fn known_key(k: Seq<char>) -> bool {
    ||| k == "name"@
    ||| k == "content_type"@
    ||| k == "content"@
    ||| k == "width"@
    ||| k == "height"@
}

/// How many fields of `fs` carry the key `k`.
pub open spec fn count_key(fs: Seq<Field>, k: Seq<char>) -> nat
    decreases fs.len(),
{
    if fs.len() == 0 {
        0
    } else {
        count_key(fs.drop_last(), k) + (if fs.last().key@ == k {
            1nat
        } else {
            0nat
        })
    }
}

/// Every field of `fs` keyed `k` carries text.
pub open spec fn text_keyed(fs: Seq<Field>, k: Seq<char>) -> bool {
    forall|i: int| 0 <= i < fs.len() && (#[trigger] fs[i]).key@ == k ==> fs[i].value is Text
}

/// Every field of `fs` keyed `k` carries a number.
pub open spec fn number_keyed(fs: Seq<Field>, k: Seq<char>) -> bool {
    forall|i: int| 0 <= i < fs.len() && (#[trigger] fs[i]).key@ == k ==> fs[i].value is Number
}

/// A well-formed incoming record: only known keys, each of the five exactly
/// once, the three text fields textual and the two dimension fields numeric.
pub open spec fn valid_record(fs: Seq<Field>) -> bool {
    &&& forall|i: int| 0 <= i < fs.len() ==> known_key((#[trigger] fs[i]).key@)
    &&& count_key(fs, "name"@) == 1 && text_keyed(fs, "name"@)
    &&& count_key(fs, "content_type"@) == 1 && text_keyed(fs, "content_type"@)
    &&& count_key(fs, "content"@) == 1 && text_keyed(fs, "content"@)
    &&& count_key(fs, "width"@) == 1 && number_keyed(fs, "width"@)
    &&& count_key(fs, "height"@) == 1 && number_keyed(fs, "height"@)
}

/// `img` holds exactly what the fields of `fs` say.
pub open spec fn record_matches(fs: Seq<Field>, img: Image) -> bool {
    &&& forall|i: int|
        0 <= i < fs.len() && (#[trigger] fs[i]).key@ == "name"@ ==> img.name@ == text_of(
            fs[i].value,
        )
    &&& forall|i: int|
        0 <= i < fs.len() && (#[trigger] fs[i]).key@ == "content_type"@ ==> img.content_type@
            == text_of(fs[i].value)
    &&& forall|i: int|
        0 <= i < fs.len() && (#[trigger] fs[i]).key@ == "content"@ ==> img.content@ == text_of(
            fs[i].value,
        )
    &&& forall|i: int|
        0 <= i < fs.len() && (#[trigger] fs[i]).key@ == "width"@ ==> img.width == number_of(
            fs[i].value,
        )
    &&& forall|i: int|
        0 <= i < fs.len() && (#[trigger] fs[i]).key@ == "height"@ ==> img.height == number_of(
            fs[i].value,
        )
}

/// The value of the field of `fs` keyed `k` (meaningful when the key occurs
/// exactly once, as it does in every well-formed record).
pub open spec fn record_field(fs: Seq<Field>, k: Seq<char>) -> FieldValue {
    fs[choose|i: int| 0 <= i < fs.len() && fs[i].key@ == k].value
}

/// The text of the field of `fs` keyed `k`.
pub open spec fn record_text(fs: Seq<Field>, k: Seq<char>) -> Seq<char> {
    text_of(record_field(fs, k))
}

/// The number of the field of `fs` keyed `k`.
pub open spec fn record_number(fs: Seq<Field>, k: Seq<char>) -> u32 {
    number_of(record_field(fs, k))
}

/// The five accepted keys are pairwise distinct.
proof fn lemma_keys_distinct()
    ensures
        "name"@ != "content_type"@,
        "name"@ != "content"@,
        "name"@ != "width"@,
        "name"@ != "height"@,
        "content_type"@ != "content"@,
        "content_type"@ != "width"@,
        "content_type"@ != "height"@,
        "content"@ != "width"@,
        "content"@ != "height"@,
        "width"@ != "height"@,
{
    reveal_strlit("name");
    reveal_strlit("content_type");
    reveal_strlit("content");
    reveal_strlit("width");
    reveal_strlit("height");
    assert("name"@.len() == 4);
    assert("content_type"@.len() == 12);
    assert("content"@.len() == 7);
    assert("width"@.len() == 5);
    assert("height"@.len() == 6);
}

/// Extending a prefix by one field adds that field's key to the counts.
proof fn lemma_count_key_take_succ(fs: Seq<Field>, k: Seq<char>, m: int)
    requires
        0 <= m < fs.len(),
    ensures
        count_key(fs.take(m + 1), k) == count_key(fs.take(m), k) + (if fs[m].key@ == k {
            1int
        } else {
            0int
        }),
{
    assert(fs.take(m + 1).drop_last() =~= fs.take(m));
    assert(fs.take(m + 1).last() == fs[m]);
}

/// A key that occurs zero times occurs at no position.
proof fn lemma_count_key_zero(fs: Seq<Field>, k: Seq<char>)
    requires
        count_key(fs, k) == 0,
    ensures
        forall|j: int| 0 <= j < fs.len() ==> (#[trigger] fs[j]).key@ != k,
    decreases fs.len(),
{
    if fs.len() > 0 {
        lemma_count_key_zero(fs.drop_last(), k);
        assert(forall|j: int| 0 <= j < fs.len() - 1 ==> fs[j] == fs.drop_last()[j]);
    }
}

/// A key with a positive count occurs at some position.
proof fn lemma_count_key_pos(fs: Seq<Field>, k: Seq<char>)
    requires
        count_key(fs, k) >= 1,
    ensures
        exists|i: int| 0 <= i < fs.len() && (#[trigger] fs[i]).key@ == k,
    decreases fs.len(),
{
    if fs.last().key@ == k {
        assert(fs[fs.len() - 1].key@ == k);
    } else {
        lemma_count_key_pos(fs.drop_last(), k);
        let i = choose|i: int| 0 <= i < fs.drop_last().len() && (#[trigger] fs.drop_last()[i]).key@
            == k;
        assert(fs[i].key@ == k);
    }
}

/// In a well-formed record, an image that matches the record field for
/// field carries exactly the record's five values.
proof fn lemma_record_field_values(fs: Seq<Field>, img: Image)
    requires
        valid_record(fs),
        record_matches(fs, img),
    ensures
        img.name@ == record_text(fs, "name"@),
        img.content_type@ == record_text(fs, "content_type"@),
        img.content@ == record_text(fs, "content"@),
        img.width == record_number(fs, "width"@),
        img.height == record_number(fs, "height"@),
{
    lemma_count_key_pos(fs, "name"@);
    lemma_count_key_pos(fs, "content_type"@);
    lemma_count_key_pos(fs, "content"@);
    lemma_count_key_pos(fs, "width"@);
    lemma_count_key_pos(fs, "height"@);
    let i_name = choose|i: int| 0 <= i < fs.len() && fs[i].key@ == "name"@;
    assert(img.name@ == text_of(fs[i_name].value));
    let i_ct = choose|i: int| 0 <= i < fs.len() && fs[i].key@ == "content_type"@;
    assert(img.content_type@ == text_of(fs[i_ct].value));
    let i_content = choose|i: int| 0 <= i < fs.len() && fs[i].key@ == "content"@;
    assert(img.content@ == text_of(fs[i_content].value));
    let i_width = choose|i: int| 0 <= i < fs.len() && fs[i].key@ == "width"@;
    assert(img.width == number_of(fs[i_width].value));
    let i_height = choose|i: int| 0 <= i < fs.len() && fs[i].key@ == "height"@;
    assert(img.height == number_of(fs[i_height].value));
}

/// A key occurs in the whole record at least as often as in a prefix.
proof fn lemma_count_key_prefix_le(fs: Seq<Field>, k: Seq<char>, m: int)
    requires
        0 <= m <= fs.len(),
    ensures
        count_key(fs.take(m), k) <= count_key(fs, k),
    decreases fs.len() - m,
{
    if m == fs.len() {
        assert(fs.take(m) =~= fs);
    } else {
        lemma_count_key_take_succ(fs, k, m);
        lemma_count_key_prefix_le(fs, k, m + 1);
    }
}

/// Marshals an incoming record into a transport image. Succeeds exactly on
/// well-formed records; every malformed record — an unknown key, a missing
/// or repeated field, a value of the wrong kind — is a bad request.
pub fn parse_image_record(fields: Vec<Field>) -> (r: Result<Image, ApiError>)
    ensures
        (r is Ok) <==> valid_record(fields@),
        r matches Ok(img) ==> record_matches(fields@, img),
        r matches Err(e) ==> e == ApiError::BadRequest,
{
    let key_name = String::from_str("name");
    let key_content_type = String::from_str("content_type");
    let key_content = String::from_str("content");
    let key_width = String::from_str("width");
    let key_height = String::from_str("height");
    let mut name: Option<String> = None;
    let mut content_type: Option<String> = None;
    let mut content: Option<String> = None;
    let mut width: Option<u32> = None;
    let mut height: Option<u32> = None;
    let mut i: usize = 0;
    while i < fields.len()
        invariant
            i <= fields@.len(),
            key_name@ == "name"@,
            key_content_type@ == "content_type"@,
            key_content@ == "content"@,
            key_width@ == "width"@,
            key_height@ == "height"@,
            forall|j: int| 0 <= j < i ==> known_key((#[trigger] fields@[j]).key@),
            text_keyed(fields@.take(i as int), "name"@),
            text_keyed(fields@.take(i as int), "content_type"@),
            text_keyed(fields@.take(i as int), "content"@),
            number_keyed(fields@.take(i as int), "width"@),
            number_keyed(fields@.take(i as int), "height"@),
            (name is Some) ==> count_key(fields@.take(i as int), "name"@) == 1,
            (name is None) ==> count_key(fields@.take(i as int), "name"@) == 0,
            (content_type is Some) ==> count_key(fields@.take(i as int), "content_type"@) == 1,
            (content_type is None) ==> count_key(fields@.take(i as int), "content_type"@) == 0,
            (content is Some) ==> count_key(fields@.take(i as int), "content"@) == 1,
            (content is None) ==> count_key(fields@.take(i as int), "content"@) == 0,
            (width is Some) ==> count_key(fields@.take(i as int), "width"@) == 1,
            (width is None) ==> count_key(fields@.take(i as int), "width"@) == 0,
            (height is Some) ==> count_key(fields@.take(i as int), "height"@) == 1,
            (height is None) ==> count_key(fields@.take(i as int), "height"@) == 0,
            name matches Some(s) ==> forall|j: int|
                0 <= j < i && (#[trigger] fields@[j]).key@ == "name"@ ==> text_of(fields@[j].value)
                    == s@,
            content_type matches Some(s) ==> forall|j: int|
                0 <= j < i && (#[trigger] fields@[j]).key@ == "content_type"@ ==> text_of(
                    fields@[j].value,
                ) == s@,
            content matches Some(s) ==> forall|j: int|
                0 <= j < i && (#[trigger] fields@[j]).key@ == "content"@ ==> text_of(
                    fields@[j].value,
                ) == s@,
            width matches Some(n) ==> forall|j: int|
                0 <= j < i && (#[trigger] fields@[j]).key@ == "width"@ ==> number_of(
                    fields@[j].value,
                ) == n,
            height matches Some(n) ==> forall|j: int|
                0 <= j < i && (#[trigger] fields@[j]).key@ == "height"@ ==> number_of(
                    fields@[j].value,
                ) == n,
        decreases fields@.len() - i,
    {
        proof {
            lemma_keys_distinct();
            lemma_count_key_take_succ(fields@, "name"@, i as int);
            lemma_count_key_take_succ(fields@, "content_type"@, i as int);
            lemma_count_key_take_succ(fields@, "content"@, i as int);
            lemma_count_key_take_succ(fields@, "width"@, i as int);
            lemma_count_key_take_succ(fields@, "height"@, i as int);
        }
        let f = &fields[i];
        if f.key == key_name {
            match &f.value {
                FieldValue::Text(s) => {
                    if name.is_some() {
                        proof {
                            lemma_count_key_prefix_le(fields@, "name"@, i as int + 1);
                        }
                        return Err(ApiError::BadRequest);
                    }
                    proof {
                        lemma_count_key_zero(fields@.take(i as int), "name"@);
                        assert forall|j: int| 0 <= j < i implies (#[trigger] fields@[j]).key@
                            != "name"@ by {
                            assert(fields@.take(i as int)[j] == fields@[j]);
                        }
                    }
                    name = Some(s.clone());
                },
                FieldValue::Number(_) => {
                    return Err(ApiError::BadRequest);
                },
            }
        } else if f.key == key_content_type {
            match &f.value {
                FieldValue::Text(s) => {
                    if content_type.is_some() {
                        proof {
                            lemma_count_key_prefix_le(fields@, "content_type"@, i as int + 1);
                        }
                        return Err(ApiError::BadRequest);
                    }
                    proof {
                        lemma_count_key_zero(fields@.take(i as int), "content_type"@);
                        assert forall|j: int| 0 <= j < i implies (#[trigger] fields@[j]).key@
                            != "content_type"@ by {
                            assert(fields@.take(i as int)[j] == fields@[j]);
                        }
                    }
                    content_type = Some(s.clone());
                },
                FieldValue::Number(_) => {
                    return Err(ApiError::BadRequest);
                },
            }
        } else if f.key == key_content {
            match &f.value {
                FieldValue::Text(s) => {
                    if content.is_some() {
                        proof {
                            lemma_count_key_prefix_le(fields@, "content"@, i as int + 1);
                        }
                        return Err(ApiError::BadRequest);
                    }
                    proof {
                        lemma_count_key_zero(fields@.take(i as int), "content"@);
                        assert forall|j: int| 0 <= j < i implies (#[trigger] fields@[j]).key@
                            != "content"@ by {
                            assert(fields@.take(i as int)[j] == fields@[j]);
                        }
                    }
                    content = Some(s.clone());
                },
                FieldValue::Number(_) => {
                    return Err(ApiError::BadRequest);
                },
            }
        } else if f.key == key_width {
            match &f.value {
                FieldValue::Number(n) => {
                    if width.is_some() {
                        proof {
                            lemma_count_key_prefix_le(fields@, "width"@, i as int + 1);
                        }
                        return Err(ApiError::BadRequest);
                    }
                    proof {
                        lemma_count_key_zero(fields@.take(i as int), "width"@);
                        assert forall|j: int| 0 <= j < i implies (#[trigger] fields@[j]).key@
                            != "width"@ by {
                            assert(fields@.take(i as int)[j] == fields@[j]);
                        }
                    }
                    width = Some(*n);
                },
                FieldValue::Text(_) => {
                    return Err(ApiError::BadRequest);
                },
            }
        } else if f.key == key_height {
            match &f.value {
                FieldValue::Number(n) => {
                    if height.is_some() {
                        proof {
                            lemma_count_key_prefix_le(fields@, "height"@, i as int + 1);
                        }
                        return Err(ApiError::BadRequest);
                    }
                    proof {
                        lemma_count_key_zero(fields@.take(i as int), "height"@);
                        assert forall|j: int| 0 <= j < i implies (#[trigger] fields@[j]).key@
                            != "height"@ by {
                            assert(fields@.take(i as int)[j] == fields@[j]);
                        }
                    }
                    height = Some(*n);
                },
                FieldValue::Text(_) => {
                    return Err(ApiError::BadRequest);
                },
            }
        } else {
            return Err(ApiError::BadRequest);
        }
        i += 1;
    }
    proof {
        assert(fields@.take(i as int) =~= fields@);
    }
    let n = match name {
        Some(s) => s,
        None => {
            return Err(ApiError::BadRequest);
        },
    };
    let ct = match content_type {
        Some(s) => s,
        None => {
            return Err(ApiError::BadRequest);
        },
    };
    let c = match content {
        Some(s) => s,
        None => {
            return Err(ApiError::BadRequest);
        },
    };
    let w = match width {
        Some(v) => v,
        None => {
            return Err(ApiError::BadRequest);
        },
    };
    let h = match height {
        Some(v) => v,
        None => {
            return Err(ApiError::BadRequest);
        },
    };
    Ok(Image::new(n, ct, c, w, h))
}

/// The dispatcher's re-encode command: marshals the incoming record and
/// hands the image to the codec. A malformed record is exactly a bad
/// request; on a well-formed record the codec's outcome is pinned over the
/// record's own field values: malformed base-64 content is exactly a decode
/// failure, a decoded byte count that disagrees with the declared
/// dimensions is exactly a dimension mismatch, and the command succeeds
/// exactly when the codec accepts the decoded buffer.
pub fn convert_webp(fields: Vec<Field>) -> (r: Result<Image, ApiError>)
    ensures
        (r == Err::<Image, ApiError>(ApiError::BadRequest)) <==> !valid_record(fields@),
        valid_record(fields@) ==> ((r == Err::<Image, ApiError>(ApiError::DecodeFailed))
            <==> !is_base64(record_text(fields@, "content"@))),
        valid_record(fields@) ==> forall|b: Seq<u8>|
            record_text(fields@, "content"@) == base64_of(b) ==> ((r == Err::<Image, ApiError>(
                ApiError::DimensionMismatch,
            )) <==> b.len() as int != (record_number(fields@, "width"@) as int) * (record_number(
                fields@,
                "height"@,
            ) as int) * 4),
        valid_record(fields@) ==> forall|b: Seq<u8>|
            record_text(fields@, "content"@) == base64_of(b) ==> ((r is Ok) <==> (b.len() as int
                == (record_number(fields@, "width"@) as int) * (record_number(fields@, "height"@)
                as int) * 4 && 1 <= record_number(fields@, "width"@) <= WEBP_MAX_DIMENSION && 1
                <= record_number(fields@, "height"@) <= WEBP_MAX_DIMENSION && webp_accepts(
                b,
                record_number(fields@, "width"@),
                record_number(fields@, "height"@),
            ))),
        valid_record(fields@) ==> forall|b: Seq<u8>|
            record_text(fields@, "content"@) == base64_of(b) ==> (r matches Ok(img)
                ==> encode_post(
                img,
                rewritten_name(record_text(fields@, "name"@)),
                b,
                record_number(fields@, "width"@),
                record_number(fields@, "height"@),
            )),
        r matches Err(e) ==> (e == ApiError::BadRequest || e == ApiError::DecodeFailed
            || e == ApiError::DimensionMismatch || e == ApiError::EncodeFailed),
{
    let source = match parse_image_record(fields) {
        Ok(img) => img,
        Err(e) => {
            return Err(e);
        },
    };
    proof {
        lemma_record_field_values(fields@, source);
    }
    match reencode(&source) {
        Ok(img) => Ok(img),
        Err(e) => Err(e),
    }
}

} // verus!
