use vstd::prelude::*;
use vstd::string::StrSliceExecFns;
use vstd::string::StringExecFns;

use crate::errors::CustomError;
use crate::errors::IntErrorKind;
use crate::errors::ParseFailure;

verus! {

/// How much of a listing a caller wants: skip `offset` entities, then return
/// up to `limit` of the rest (all of them when `limit` is absent).
#[derive(Clone, Copy, PartialEq, Eq, Debug)]
pub struct Pagination {
    /// Upper bound on the number of returned entities; `None` means no bound.
    pub limit: Option<u32>,
    /// Number of leading entities to skip.
    pub offset: u32,
}

impl Default for Pagination {
    /// Absent pagination defaults to "everything, from the start".
    fn default() -> (r: Self)
        ensures
            r.limit is None,
            r.offset == 0,
    {
        Pagination { limit: None, offset: 0 }
    }
}

/// What a listing returns: skip `offset` entries of `s`, then take at most
/// `limit` of the remainder. An offset at or beyond the end yields the empty
/// sequence, never an error.
pub open spec fn paginate<T>(s: Seq<T>, limit: Option<u32>, offset: u32) -> Seq<T> {
    let rest = if offset < s.len() {
        s.subrange(offset as int, s.len() as int)
    } else {
        Seq::<T>::empty()
    };
    match limit {
        Some(l) => {
            if l < rest.len() {
                rest.subrange(0, l as int)
            } else {
                rest
            }
        },
        None => rest,
    }
}

/// Any offset at or beyond the length of the listing yields an empty result.
pub proof fn lemma_paginate_offset_beyond<T>(s: Seq<T>, limit: Option<u32>, offset: u32)
    requires
        offset >= s.len(),
    ensures
        paginate(s, limit, offset) =~= Seq::<T>::empty(),
{
}

/// With a limit of `l`, a listing returns exactly
/// `min(l, max(0, s.len() - offset))` entities.
pub proof fn lemma_paginate_length<T>(s: Seq<T>, l: u32, offset: u32)
    ensures
        paginate(s, Some(l), offset).len() == vstd::math::min(
            l as int,
            vstd::math::max(0, s.len() - offset),
        ),
{
}

/// Without a limit, a listing returns everything past the offset.
pub proof fn lemma_paginate_unbounded_length<T>(s: Seq<T>, offset: u32)
    ensures
        paginate(s, None, offset).len() == vstd::math::max(0, s.len() - offset),
{
}

/// A decimal digit, `'0'` through `'9'`.
pub open spec fn is_digit(c: char) -> bool {
    '0' as int <= c as int <= '9' as int
}

/// The numeric value of a decimal digit.
pub open spec fn digit_val(c: char) -> int {
    c as int - '0' as int
}

/// Reading digits left to right onto an accumulator: the first character that
/// is not a digit fails the parse, and so does the first step whose value no
/// longer fits.
pub open spec fn scan_u32(s: Seq<char>, acc: u32) -> Result<u32, IntErrorKind>
    decreases s.len(),
{
    if s.len() == 0 {
        Ok(acc)
    } else if !is_digit(s[0]) {
        Err(IntErrorKind::InvalidDigit)
    } else if acc as int * 10 + digit_val(s[0]) > u32::MAX as int {
        Err(IntErrorKind::PosOverflow)
    } else {
        scan_u32(s.skip(1), (acc as int * 10 + digit_val(s[0])) as u32)
    }
}

/// What parsing a string as a `u32` yields: an optional leading `'+'`, then
/// at least one digit, with a value that fits.
pub open spec fn parse_u32_spec(s: Seq<char>) -> Result<u32, IntErrorKind> {
    if s.len() == 0 {
        Err(IntErrorKind::Empty)
    } else {
        let digits = if s[0] == '+' {
            s.skip(1)
        } else {
            s
        };
        if digits.len() == 0 {
            Err(IntErrorKind::InvalidDigit)
        } else {
            scan_u32(digits, 0)
        }
    }
}

/// Parses a string as a non-negative integer.
pub fn parse_u32(s: &str) -> (r: Result<u32, IntErrorKind>)
    ensures
        r == parse_u32_spec(s@),
{
    let n = s.unicode_len();
    if n == 0 {
        return Err(IntErrorKind::Empty);
    }
    let first = s.get_char(0);
    let mut i: usize = if first == '+' {
        1
    } else {
        0
    };
    if i == n {
        return Err(IntErrorKind::InvalidDigit);
    }
    proof {
        if i == 0 {
            assert(s@.skip(0) =~= s@);
        }
        assert(parse_u32_spec(s@) == scan_u32(s@.skip(i as int), 0u32));
    }
    let mut acc: u32 = 0;
    while i < n
        invariant
            0 < i <= n || (i == 0 && 0 < n),
            n == s@.len(),
            parse_u32_spec(s@) == scan_u32(s@.skip(i as int), acc),
        decreases n - i,
    {
        let c = s.get_char(i);
        let cv = c as u32;
        proof {
            assert(s@.skip(i as int)[0] == s@[i as int]);
            assert(s@.skip(i as int).skip(1) =~= s@.skip(i as int + 1));
        }
        if cv < 48 || cv > 57 {
            return Err(IntErrorKind::InvalidDigit);
        }
        let d = cv - 48;
        let wide: u64 = acc as u64 * 10 + d as u64;
        if wide > u32::MAX as u64 {
            return Err(IntErrorKind::PosOverflow);
        }
        acc = wide as u32;
        i = i + 1;
    }
    proof {
        assert(s@.skip(n as int) =~= Seq::<char>::empty());
    }
    Ok(acc)
}

/// Reading digits left to right onto a signed accumulator, toward positive
/// or negative values: the first character that is not a digit fails the
/// parse, and so does the first step whose value no longer fits.
pub open spec fn scan_i32(s: Seq<char>, acc: i32, positive: bool) -> Result<i32, IntErrorKind>
    decreases s.len(),
{
    if s.len() == 0 {
        Ok(acc)
    } else if !is_digit(s[0]) {
        Err(IntErrorKind::InvalidDigit)
    } else if positive && acc as int * 10 + digit_val(s[0]) > i32::MAX as int {
        Err(IntErrorKind::PosOverflow)
    } else if !positive && acc as int * 10 - digit_val(s[0]) < i32::MIN as int {
        Err(IntErrorKind::NegOverflow)
    } else {
        let next = if positive {
            acc as int * 10 + digit_val(s[0])
        } else {
            acc as int * 10 - digit_val(s[0])
        };
        scan_i32(s.skip(1), next as i32, positive)
    }
}

/// What parsing a string as an `i32` yields: an optional leading `'+'` or
/// `'-'`, then at least one digit, with a value that fits.
pub open spec fn parse_i32_spec(s: Seq<char>) -> Result<i32, IntErrorKind> {
    if s.len() == 0 {
        Err(IntErrorKind::Empty)
    } else {
        let positive = s[0] != '-';
        let digits = if s[0] == '+' || s[0] == '-' {
            s.skip(1)
        } else {
            s
        };
        if digits.len() == 0 {
            Err(IntErrorKind::InvalidDigit)
        } else {
            scan_i32(digits, 0, positive)
        }
    }
}

/// Parses a string as a signed integer.
pub fn parse_i32(s: &str) -> (r: Result<i32, IntErrorKind>)
    ensures
        r == parse_i32_spec(s@),
{
    let n = s.unicode_len();
    if n == 0 {
        return Err(IntErrorKind::Empty);
    }
    let first = s.get_char(0);
    let positive = first != '-';
    let mut i: usize = if first == '+' || first == '-' {
        1
    } else {
        0
    };
    if i == n {
        return Err(IntErrorKind::InvalidDigit);
    }
    proof {
        if i == 0 {
            assert(s@.skip(0) =~= s@);
        }
        assert(parse_i32_spec(s@) == scan_i32(s@.skip(i as int), 0i32, positive));
    }
    let mut acc: i64 = 0;
    while i < n
        invariant
            0 < i <= n || (i == 0 && 0 < n),
            n == s@.len(),
            positive ==> 0 <= acc <= i32::MAX as i64,
            !positive ==> i32::MIN as i64 <= acc <= 0,
            parse_i32_spec(s@) == scan_i32(s@.skip(i as int), acc as i32, positive),
        decreases n - i,
    {
        let c = s.get_char(i);
        let cv = c as u32;
        proof {
            assert(s@.skip(i as int)[0] == s@[i as int]);
            assert(s@.skip(i as int).skip(1) =~= s@.skip(i as int + 1));
        }
        if cv < 48 || cv > 57 {
            return Err(IntErrorKind::InvalidDigit);
        }
        let d = (cv - 48) as i64;
        let next: i64 = if positive {
            acc * 10 + d
        } else {
            acc * 10 - d
        };
        if positive && next > i32::MAX as i64 {
            return Err(IntErrorKind::PosOverflow);
        }
        if !positive && next < i32::MIN as i64 {
            return Err(IntErrorKind::NegOverflow);
        }
        acc = next;
        i = i + 1;
    }
    proof {
        assert(s@.skip(n as int) =~= Seq::<char>::empty());
    }
    Ok(acc as i32)
}

/// Whether some query parameter has the given key.
pub open spec fn has_param(params: Seq<(String, String)>, key: Seq<char>) -> bool {
    exists|i: int| 0 <= i < params.len() && params[i].0@ == key
}

/// The value of the first query parameter with the given key.
pub open spec fn param_value(params: Seq<(String, String)>, key: Seq<char>) -> Seq<char>
    decreases params.len(),
{
    if params.len() == 0 {
        Seq::<char>::empty()
    } else if params[0].0@ == key {
        params[0].1@
    } else {
        param_value(params.skip(1), key)
    }
}

/// Looks a key up among the query parameters; the first occurrence wins.
pub(crate) fn find_param<'a>(params: &'a Vec<(String, String)>, key: &String) -> (r: Option<
    &'a String,
>)
    ensures
        match r {
            Some(v) => has_param(params@, key@) && v@ == param_value(params@, key@),
            None => !has_param(params@, key@),
        },
{
    let mut i: usize = 0;
    proof {
        assert(params@.skip(0) =~= params@);
    }
    while i < params.len()
        invariant
            0 <= i <= params@.len(),
            forall|j: int| 0 <= j < i ==> params@[j].0@ != key@,
            param_value(params@, key@) == param_value(params@.skip(i as int), key@),
        decreases params@.len() - i,
    {
        proof {
            assert(params@.skip(i as int)[0] == params@[i as int]);
            assert(params@.skip(i as int).skip(1) =~= params@.skip(i as int + 1));
        }
        let pair = &params[i];
        if pair.0 == *key {
            return Some(&pair.1);
        }
        i = i + 1;
    }
    None
}

/// Whether the query parameters carry a well-formed pagination: both keys
/// present, both values non-negative integers.
pub open spec fn pagination_valid(params: Seq<(String, String)>) -> bool {
    &&& has_param(params, "limit"@)
    &&& has_param(params, "offset"@)
    &&& parse_u32_spec(param_value(params, "limit"@)) is Ok
    &&& parse_u32_spec(param_value(params, "offset"@)) is Ok
}

/// The pagination well-formed query parameters carry.
pub open spec fn spec_pagination(params: Seq<(String, String)>) -> Pagination {
    Pagination {
        limit: Some(parse_u32_spec(param_value(params, "limit"@))->Ok_0),
        offset: parse_u32_spec(param_value(params, "offset"@))->Ok_0,
    }
}

/// What a failed pagination extraction reports: missing parameters when a
/// key is absent, otherwise the first parse failure, the `limit` one first.
pub open spec fn pagination_error(params: Seq<(String, String)>, e: CustomError) -> bool {
    if !has_param(params, "limit"@) || !has_param(params, "offset"@) {
        e matches CustomError::MissingParameters
    } else {
        match parse_u32_spec(param_value(params, "limit"@)) {
            Err(k) => e matches CustomError::ParseError(f) && f.input@ == param_value(
                params,
                "limit"@,
            ) && f.kind == k,
            Ok(_) => match parse_u32_spec(param_value(params, "offset"@)) {
                Err(k) => e matches CustomError::ParseError(f) && f.input@ == param_value(
                    params,
                    "offset"@,
                ) && f.kind == k,
                Ok(_) => false,
            },
        }
    }
}

/// Reads the pagination of a request from its query parameters. Both `limit`
/// and `offset` must be present, or the request is rejected for missing
/// parameters; a value that is not a non-negative integer is rejected as a
/// parse error, the `limit` one first.
pub fn extract_pagination(params: &Vec<(String, String)>) -> (r: Result<Pagination, CustomError>)
    ensures
        pagination_valid(params@) ==> (r matches Ok(p) && p == spec_pagination(params@)),
        !pagination_valid(params@) ==> (r matches Err(e) && pagination_error(params@, e)),
{
    let limit_key = "limit".to_owned();
    let offset_key = "offset".to_owned();
    let limit_raw = find_param(params, &limit_key);
    let offset_raw = find_param(params, &offset_key);
    match (limit_raw, offset_raw) {
        (Some(lv), Some(ov)) => {
            let limit = match parse_u32(lv.as_str()) {
                Ok(x) => x,
                Err(k) => {
                    return Err(
                        CustomError::ParseError(ParseFailure { input: lv.clone(), kind: k }),
                    );
                },
            };
            let offset = match parse_u32(ov.as_str()) {
                Ok(x) => x,
                Err(k) => {
                    return Err(
                        CustomError::ParseError(ParseFailure { input: ov.clone(), kind: k }),
                    );
                },
            };
            Ok(Pagination { limit: Some(limit), offset })
        },
        _ => Err(CustomError::MissingParameters),
    }
}

} // verus!
