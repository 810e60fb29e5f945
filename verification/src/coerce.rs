//! Scalar coercion: loosely typed values of a document to strict ones.
use vstd::prelude::*;
use serde_json::Value;
use crate::error::Error;
use crate::error::Field;
use crate::json::Json;
use crate::json::Number;
use crate::json::Numeral;
use crate::json::Tree;
use crate::round::rounded;
use crate::text::integer_in;

verus! {

/// The whole number between `lo` and `hi` that a value holds: as a number of
/// the document, or as a text that writes one.
pub open spec fn whole_number(t: Tree, lo: int, hi: int) -> Option<int> {
    match t {
        Tree::Text(s) => integer_in(s, lo, hi),
        Tree::Number(Numeral::Int(v)) => if lo <= v <= hi {
            Some(v)
        } else {
            None
        },
        _ => None,
    }
}

/// The whole number between `lo` and `hi` that a value holds as a number of
/// the document; a text does not count.
pub open spec fn native_number(t: Tree, lo: int, hi: int) -> Option<int> {
    match t {
        Tree::Number(Numeral::Int(v)) => if lo <= v <= hi {
            Some(v)
        } else {
            None
        },
        _ => None,
    }
}

/// The whole number under `key` of a record, which is required and has to be
/// a number of the document: an error of shape where the record has no such
/// entry, a coercion error where the entry holds anything else.
pub open spec fn native_field(record: Tree, key: Seq<char>, lo: int, hi: int, field: Field) -> Result<
    int,
    Error,
> {
    match record.get(key) {
        None => Err(Error::Deserialization(field)),
        Some(v) => match native_number(v, lo, hi) {
            Some(n) => Ok(n),
            None => Err(Error::Coercion(field)),
        },
    }
}

/// Reads the `u32` under `key` of a record, which has to be a number.
pub fn native_u32_field(record: &Json, key: &str, field: Field) -> (r: Result<u32, Error>)
    ensures
        match native_field(record@, key@, 0, u32::MAX as int, field) {
            Ok(n) => r == Ok::<u32, Error>(n as u32),
            Err(e) => r == Err::<u32, Error>(e),
        },
{
    match record.get(key) {
        None => Err(Error::Deserialization(field)),
        Some(Json::Number(Number::PosInt(u))) => if *u <= 0xffff_ffff {
            Ok(*u as u32)
        } else {
            Err(Error::Coercion(field))
        },
        Some(Json::Number(Number::NegInt(i))) => if 0 <= *i && *i <= 0xffff_ffff {
            Ok(*i as u32)
        } else {
            Err(Error::Coercion(field))
        },
        Some(_) => Err(Error::Coercion(field)),
    }
}

/// Whether a value is a floating-point number of a document.
pub open spec fn is_float(t: Tree) -> bool {
    t matches Tree::Number(Numeral::Float(_))
}

/// The `u64` that a value holds, as a number or as a text that writes one.
pub open spec fn unsigned_of(t: Tree) -> Option<u64> {
    match whole_number(t, 0, u64::MAX as int) {
        Some(n) => Some(n as u64),
        None => None,
    }
}

/// The `i64` that a value holds, as a number or as a text that writes one.
pub open spec fn signed_of(t: Tree) -> Option<i64> {
    match whole_number(t, i64::MIN as int, i64::MAX as int) {
        Some(n) => Some(n as i64),
        None => None,
    }
}

/// Calls `serde_aux::field_attributes::deserialize_number_from_string` for a
/// `u64`, on the value of `serde_json` that holds what `v` holds. As its
/// source has it: a text is read as Rust reads a `u64`, an optional `+` and
/// digits; a whole number is taken as it is, where it fits; nothing else is
/// a number.
#[verifier::external_body]
fn unsigned_from_value(v: &Json) -> (r: Option<u64>)
    requires
        !is_float(v@),
    ensures
        r == unsigned_of(v@),
{
    let value = match v {
        Json::Bool(b) => Value::Bool(*b),
        Json::Number(Number::PosInt(u)) => Value::from(*u),
        Json::Number(Number::NegInt(i)) => Value::from(*i),
        Json::Text(s) => Value::String(s.clone()),
        _ => Value::Null,
    };
    serde_aux::field_attributes::deserialize_number_from_string::<u64, _>(value).ok()
}

/// Calls `serde_aux::field_attributes::deserialize_number_from_string` for
/// an `i64`, on the value of `serde_json` that holds what `v` holds. As its
/// source has it: a text is read as Rust reads an `i64`, an optional sign
/// and digits; a whole number is taken as it is, where it fits; nothing else
/// is a number.
#[verifier::external_body]
fn signed_from_value(v: &Json) -> (r: Option<i64>)
    requires
        !is_float(v@),
    ensures
        r == signed_of(v@),
{
    let value = match v {
        Json::Bool(b) => Value::Bool(*b),
        Json::Number(Number::PosInt(u)) => Value::from(*u),
        Json::Number(Number::NegInt(i)) => Value::from(*i),
        Json::Text(s) => Value::String(s.clone()),
        _ => Value::Null,
    };
    serde_aux::field_attributes::deserialize_number_from_string::<i64, _>(value).ok()
}

/// Reads a `u64` from a number or a text. A floating-point number is none.
pub fn to_u64(v: &Json) -> (r: Option<u64>)
    ensures
        match r {
            Some(n) => whole_number(v@, 0, u64::MAX as int) == Some(n as int),
            None => whole_number(v@, 0, u64::MAX as int) is None,
        },
{
    match v {
        Json::Number(Number::Float(_)) => None,
        _ => unsigned_from_value(v),
    }
}

/// Reads an `i64` from a number or a text. A floating-point number is none.
pub fn to_i64(v: &Json) -> (r: Option<i64>)
    ensures
        match r {
            Some(n) => whole_number(v@, i64::MIN as int, i64::MAX as int) == Some(n as int),
            None => whole_number(v@, i64::MIN as int, i64::MAX as int) is None,
        },
{
    match v {
        Json::Number(Number::Float(_)) => None,
        _ => signed_from_value(v),
    }
}

/// Reads a `u32` from a number or a text.
pub fn to_u32(v: &Json) -> (r: Option<u32>)
    ensures
        match r {
            Some(n) => whole_number(v@, 0, u32::MAX as int) == Some(n as int),
            None => whole_number(v@, 0, u32::MAX as int) is None,
        },
{
    match to_u64(v) {
        Some(n) => if n <= 0xffff_ffff {
            Some(n as u32)
        } else {
            None
        },
        None => None,
    }
}

/// Reads a `usize` from a number or a text.
pub fn to_usize(v: &Json) -> (r: Option<usize>)
    ensures
        match r {
            Some(n) => whole_number(v@, 0, usize::MAX as int) == Some(n as int),
            None => whole_number(v@, 0, usize::MAX as int) is None,
        },
{
    match to_u64(v) {
        Some(n) => if n <= usize::MAX as u64 {
            Some(n as usize)
        } else {
            None
        },
        None => None,
    }
}

/// Reads an `i32` from a number or a text.
pub fn to_i32(v: &Json) -> (r: Option<i32>)
    ensures
        match r {
            Some(n) => whole_number(v@, i32::MIN as int, i32::MAX as int) == Some(n as int),
            None => whole_number(v@, i32::MIN as int, i32::MAX as int) is None,
        },
{
    match to_i64(v) {
        Some(n) => if -0x8000_0000 <= n && n <= 0x7fff_ffff {
            Some(n as i32)
        } else {
            None
        },
        None => None,
    }
}

/// Whether `c` is a letter of the Latin alphabet without marks.
pub open spec fn is_letter(c: char) -> bool {
    ('a' <= c && c <= 'z') || ('A' <= c && c <= 'Z')
}

/// Whether `s` holds letters of the Latin alphabet only.
pub open spec fn all_letters(s: Seq<char>) -> bool {
    forall|i: int| 0 <= i < s.len() ==> is_letter(#[trigger] s[i])
}

/// Whether `s` is `word`, which is written in small letters, in small or
/// capital letters.
pub open spec fn spells(s: Seq<char>, word: Seq<char>) -> bool {
    &&& s.len() == word.len()
    &&& forall|i: int|
        0 <= i < s.len() ==> (#[trigger] s[i]) == word[i] || s[i] as int + 32 == word[i] as int
}

/// What `serde_aux`'s `deserialize_bool_from_anything` reads from a text
/// that is none of the spellings that `spelled` states.
pub uninterp spec fn spelled_truth(text: Seq<char>) -> Option<bool>;

/// The boolean that a text spells: `true` and `false` in small or capital
/// letters, `1` for true and `0` for false. No other text of letters alone
/// spells one; of every text that is left `spelled_truth` says what it
/// spells.
pub open spec fn spelled(text: Seq<char>) -> Option<bool> {
    if text == "1"@ {
        Some(true)
    } else if text == "0"@ {
        Some(false)
    } else if all_letters(text) {
        if spells(text, "true"@) {
            Some(true)
        } else if spells(text, "false"@) {
            Some(false)
        } else {
            None
        }
    } else {
        spelled_truth(text)
    }
}

/// The bit pattern of the floating-point number one.
pub const ONE: u64 = 0x3ff0_0000_0000_0000;

/// The bit pattern of the largest floating-point number below one, the only
/// other one that lies within the machine epsilon of one.
pub const BELOW_ONE: u64 = 0x3fef_ffff_ffff_ffff;

/// The bit pattern of the floating-point number minus zero.
pub const MINUS_ZERO: u64 = 0x8000_0000_0000_0000;

/// The boolean that a value holds: a boolean itself, the numbers one (true)
/// and zero (false), or a text that spells either.
pub open spec fn flag_of(t: Tree) -> Option<bool> {
    match t {
        Tree::Bool(b) => Some(b),
        Tree::Number(Numeral::Int(v)) => if v == 1 {
            Some(true)
        } else if v == 0 {
            Some(false)
        } else {
            None
        },
        Tree::Number(Numeral::Float(bits)) => if bits == ONE || bits == BELOW_ONE {
            Some(true)
        } else if bits == 0 || bits == MINUS_ZERO {
            Some(false)
        } else {
            None
        },
        Tree::Text(s) => spelled(s),
        _ => None,
    }
}

/// Calls `serde_aux::field_attributes::deserialize_bool_from_anything` on
/// the value of `serde_json` that holds what `v` holds. As its source has
/// it: a boolean is itself; of the whole numbers, one is true and zero is
/// false; a text is read in small letters as Rust reads a `bool`, else as a
/// whole number, else as a floating-point number, which is true where it is
/// one and false where it is zero. What it reads from a text that has more
/// than letters and is neither `1` nor `0` is given the name
/// `spelled_truth`.
#[verifier::external_body]
fn flag_from_value(v: &Json) -> (r: Option<bool>)
    requires
        !is_float(v@),
    ensures
        r == flag_of(v@),
        v@ matches Tree::Text(s) ==> s == "1"@ || s == "0"@ || all_letters(s) || r
            == spelled_truth(s),
{
    let value = match v {
        Json::Bool(b) => Value::Bool(*b),
        Json::Number(Number::PosInt(u)) => Value::from(*u),
        Json::Number(Number::NegInt(i)) => Value::from(*i),
        Json::Text(s) => Value::String(s.clone()),
        _ => Value::Null,
    };
    serde_aux::field_attributes::deserialize_bool_from_anything(value).ok()
}

/// Reads a boolean from a boolean, a number or a text.
pub fn to_bool(v: &Json) -> (r: Option<bool>)
    ensures
        r == flag_of(v@),
{
    match v {
        Json::Number(Number::Float(bits)) => if *bits == ONE || *bits == BELOW_ONE {
            Some(true)
        } else if *bits == 0 || *bits == MINUS_ZERO {
            Some(false)
        } else {
            None
        },
        _ => flag_from_value(v),
    }
}

/// The whole number under `key` of a record: `default` where the record has
/// no such entry, a coercion error where the entry holds no whole number
/// between `lo` and `hi`, and an error of shape where it is missing and there
/// is no default.
pub open spec fn number_field(
    record: Tree,
    key: Seq<char>,
    lo: int,
    hi: int,
    field: Field,
    default: Option<int>,
) -> Result<int, Error> {
    match record.get(key) {
        None => match default {
            Some(d) => Ok(d),
            None => Err(Error::Deserialization(field)),
        },
        Some(v) => match whole_number(v, lo, hi) {
            Some(n) => Ok(n),
            None => Err(Error::Coercion(field)),
        },
    }
}

/// The text under `key` of a record: `default` where the record has no such
/// entry, and an error of shape where the entry holds no text, or is missing
/// and there is no default.
pub open spec fn text_field(record: Tree, key: Seq<char>, field: Field, default: Option<
    Seq<char>,
>) -> Result<Seq<char>, Error> {
    match record.get(key) {
        None => match default {
            Some(d) => Ok(d),
            None => Err(Error::Deserialization(field)),
        },
        Some(Tree::Text(s)) => Ok(s),
        Some(_) => Err(Error::Deserialization(field)),
    }
}

/// The text under `key` of a record, where there is one: nothing where the
/// entry is missing or null, and an error of shape where it holds anything
/// but a text.
pub open spec fn optional_text_field(record: Tree, key: Seq<char>, field: Field) -> Result<
    Option<Seq<char>>,
    Error,
> {
    match record.get(key) {
        None => Ok(None),
        Some(Tree::Null) => Ok(None),
        Some(Tree::Text(s)) => Ok(Some(s)),
        Some(_) => Err(Error::Deserialization(field)),
    }
}

/// Reads the `u32` under `key` of a record.
pub fn u32_field(record: &Json, key: &str, field: Field, default: Option<u32>) -> (r: Result<
    u32,
    Error,
>)
    ensures
        match number_field(
            record@,
            key@,
            0,
            u32::MAX as int,
            field,
            match default {
                Some(d) => Some(d as int),
                None => None,
            },
        ) {
            Ok(n) => r == Ok::<u32, Error>(n as u32),
            Err(e) => r == Err::<u32, Error>(e),
        },
{
    match record.get(key) {
        None => match default {
            Some(d) => Ok(d),
            None => Err(Error::Deserialization(field)),
        },
        Some(v) => match to_u32(v) {
            Some(n) => Ok(n),
            None => Err(Error::Coercion(field)),
        },
    }
}

/// Reads the `u64` under `key` of a record.
pub fn u64_field(record: &Json, key: &str, field: Field, default: Option<u64>) -> (r: Result<
    u64,
    Error,
>)
    ensures
        match number_field(
            record@,
            key@,
            0,
            u64::MAX as int,
            field,
            match default {
                Some(d) => Some(d as int),
                None => None,
            },
        ) {
            Ok(n) => r == Ok::<u64, Error>(n as u64),
            Err(e) => r == Err::<u64, Error>(e),
        },
{
    match record.get(key) {
        None => match default {
            Some(d) => Ok(d),
            None => Err(Error::Deserialization(field)),
        },
        Some(v) => match to_u64(v) {
            Some(n) => Ok(n),
            None => Err(Error::Coercion(field)),
        },
    }
}

/// Reads the `usize` under `key` of a record.
pub fn usize_field(record: &Json, key: &str, field: Field, default: Option<usize>) -> (r: Result<
    usize,
    Error,
>)
    ensures
        match number_field(
            record@,
            key@,
            0,
            usize::MAX as int,
            field,
            match default {
                Some(d) => Some(d as int),
                None => None,
            },
        ) {
            Ok(n) => r == Ok::<usize, Error>(n as usize),
            Err(e) => r == Err::<usize, Error>(e),
        },
{
    match record.get(key) {
        None => match default {
            Some(d) => Ok(d),
            None => Err(Error::Deserialization(field)),
        },
        Some(v) => match to_usize(v) {
            Some(n) => Ok(n),
            None => Err(Error::Coercion(field)),
        },
    }
}

/// Reads the `i32` under `key` of a record.
pub fn i32_field(record: &Json, key: &str, field: Field, default: Option<i32>) -> (r: Result<
    i32,
    Error,
>)
    ensures
        match number_field(
            record@,
            key@,
            i32::MIN as int,
            i32::MAX as int,
            field,
            match default {
                Some(d) => Some(d as int),
                None => None,
            },
        ) {
            Ok(n) => r == Ok::<i32, Error>(n as i32),
            Err(e) => r == Err::<i32, Error>(e),
        },
{
    match record.get(key) {
        None => match default {
            Some(d) => Ok(d),
            None => Err(Error::Deserialization(field)),
        },
        Some(v) => match to_i32(v) {
            Some(n) => Ok(n),
            None => Err(Error::Coercion(field)),
        },
    }
}

/// Reads the text under `key` of a record; without an entry it is `default`,
/// and an error of shape where there is none.
pub fn string_field(record: &Json, key: &str, field: Field, default: Option<&str>) -> (r: Result<
    String,
    Error,
>)
    ensures
        match text_field(
            record@,
            key@,
            field,
            match default {
                Some(d) => Some(d@),
                None => None,
            },
        ) {
            Ok(s) => r is Ok && r->Ok_0@ == s,
            Err(e) => r == Err::<String, Error>(e),
        },
{
    match record.get(key) {
        None => match default {
            Some(d) => Ok(d.to_owned()),
            None => Err(Error::Deserialization(field)),
        },
        Some(Json::Text(s)) => Ok(s.clone()),
        Some(_) => Err(Error::Deserialization(field)),
    }
}

/// Reads the text under `key` of a record, where there is one.
pub fn optional_string_field(record: &Json, key: &str, field: Field) -> (r: Result<
    Option<String>,
    Error,
>)
    ensures
        match optional_text_field(record@, key@, field) {
            Ok(Some(s)) => r is Ok && r->Ok_0 is Some && r->Ok_0->Some_0@ == s,
            Ok(None) => r is Ok && r->Ok_0 is None,
            Err(e) => r == Err::<Option<String>, Error>(e),
        },
{
    match record.get(key) {
        None => Ok(None),
        Some(Json::Null) => Ok(None),
        Some(Json::Text(s)) => Ok(Some(s.clone())),
        Some(_) => Err(Error::Deserialization(field)),
    }
}

/// The rounded number under `key` of a record: an error of shape where the
/// record has no such entry, and a coercion error where the entry holds
/// nothing that can be rounded.
pub open spec fn rounded_field(record: Tree, key: Seq<char>, field: Field) -> Result<int, Error> {
    match record.get(key) {
        None => Err(Error::Deserialization(field)),
        Some(v) => match rounded(v) {
            Some(n) => Ok(n),
            None => Err(Error::Coercion(field)),
        },
    }
}

/// The boolean under `key` of a record: `default` where the record has no
/// such entry, and a coercion error where the entry holds no boolean.
pub open spec fn flag_field(record: Tree, key: Seq<char>, field: Field, default: bool) -> Result<
    bool,
    Error,
> {
    match record.get(key) {
        None => Ok(default),
        Some(v) => match flag_of(v) {
            Some(b) => Ok(b),
            None => Err(Error::Coercion(field)),
        },
    }
}

/// Reads the boolean under `key` of a record.
pub fn bool_field(record: &Json, key: &str, field: Field, default: bool) -> (r: Result<
    bool,
    Error,
>)
    ensures
        r == flag_field(record@, key@, field, default),
{
    match record.get(key) {
        None => Ok(default),
        Some(v) => match to_bool(v) {
            Some(b) => Ok(b),
            None => Err(Error::Coercion(field)),
        },
    }
}

/// What stands for each item of a sequence, in the same order.
pub open spec fn views<T: View>(items: Seq<T>) -> Seq<T::V> {
    Seq::new(items.len(), |i: int| items[i]@)
}

/// The first failure among `results` at or after `from`.
pub open spec fn first_failure<T>(results: Seq<Result<T, Error>>, from: int) -> Option<Error>
    decreases results.len() - from,
{
    if from < 0 || from >= results.len() {
        None
    } else {
        match results[from] {
            Err(e) => Some(e),
            Ok(_) => first_failure(results, from + 1),
        }
    }
}

/// What all of `results` hold, in their order; their first failure where
/// one has failed.
pub open spec fn all_of<T>(results: Seq<Result<T, Error>>) -> Result<Seq<T>, Error> {
    match first_failure(results, 0) {
        Some(e) => Err(e),
        None => Ok(Seq::new(results.len(), |i: int| results[i]->Ok_0)),
    }
}

} // verus!
