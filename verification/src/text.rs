use vstd::prelude::*;

use crate::error::CpoError;

verus! {

/// Whitespace as the tabular text files use it: space, tab, and the line
/// terminators.
pub open spec fn is_ws(b: u8) -> bool {
    b == 32 || b == 9 || b == 10 || b == 13
}

/// An ASCII decimal digit.
pub open spec fn is_digit(b: u8) -> bool {
    48 <= b <= 57
}

/// The first position at or after `from` holding a non-whitespace byte, or
/// the end of the line.
pub open spec fn skip_ws(s: Seq<u8>, from: int) -> int
    recommends
        0 <= from <= s.len(),
    decreases s.len() - from,
{
    if from < 0 || from >= s.len() {
        s.len() as int
    } else if is_ws(s[from]) {
        skip_ws(s, from + 1)
    } else {
        from
    }
}

/// The first position at or after `from` holding a whitespace byte, or the
/// end of the line: the end of the token starting at `from`.
pub open spec fn skip_token(s: Seq<u8>, from: int) -> int
    recommends
        0 <= from <= s.len(),
    decreases s.len() - from,
{
    if from < 0 || from >= s.len() {
        s.len() as int
    } else if !is_ws(s[from]) {
        skip_token(s, from + 1)
    } else {
        from
    }
}

fn byte_is_ws(b: u8) -> (r: bool)
    ensures
        r == is_ws(b),
{
    b == 32 || b == 9 || b == 10 || b == 13
}

/// The first position at or after `from` holding a non-whitespace byte.
fn find_non_ws(s: &Vec<u8>, from: usize) -> (r: usize)
    requires
        from <= s@.len(),
    ensures
        r == skip_ws(s@, from as int),
        from <= r <= s@.len(),
        r < s@.len() ==> !is_ws(s@[r as int]),
        forall|k: int| from <= k < r ==> is_ws(s@[k]),
{
    let mut i: usize = from;
    while i < s.len()
        invariant
            from <= i <= s@.len(),
            skip_ws(s@, from as int) == skip_ws(s@, i as int),
            forall|k: int| from <= k < i ==> is_ws(s@[k]),
        decreases s@.len() - i,
    {
        if !byte_is_ws(s[i]) {
            return i;
        }
        i = i + 1;
    }
    i
}

/// The end of the token starting at `from`: the first position at or after
/// `from` holding a whitespace byte, or the end of the line.
fn find_token_end(s: &Vec<u8>, from: usize) -> (r: usize)
    requires
        from <= s@.len(),
    ensures
        r == skip_token(s@, from as int),
        from <= r <= s@.len(),
{
    let mut i: usize = from;
    while i < s.len()
        invariant
            from <= i <= s@.len(),
            skip_token(s@, from as int) == skip_token(s@, i as int),
        decreases s@.len() - i,
    {
        if byte_is_ws(s[i]) {
            return i;
        }
        i = i + 1;
    }
    i
}

/// `needle` occurs contiguously somewhere in `hay`.
pub open spec fn contains_seq(hay: Seq<u8>, needle: Seq<u8>) -> bool {
    exists|k: int|
        0 <= k <= hay.len() - needle.len() && (#[trigger] hay.subrange(k, k + needle.len()))
            == needle
}

/// Whether `needle` occurs contiguously in `hay` (the marker test of the
/// time-index scan).
pub fn contains_subsequence(hay: &Vec<u8>, needle: &Vec<u8>) -> (r: bool)
    ensures
        r == contains_seq(hay@, needle@),
{
    let nlen = needle.len();
    if nlen > hay.len() {
        return false;
    }
    let last = hay.len() - nlen;
    let mut k: usize = 0;
    while k <= last
        invariant
            nlen == needle@.len(),
            last == hay@.len() - nlen,
            hay@.len() <= usize::MAX,
            k <= last + 1,
            forall|k2: int|
                0 <= k2 < k ==> (#[trigger] hay@.subrange(k2, k2 + needle@.len() as int))
                    != needle@,
        decreases last + 1 - k,
    {
        let mut t: usize = 0;
        let mut eq = true;
        while t < nlen
            invariant
                nlen == needle@.len(),
                k + nlen <= hay@.len(),
                hay@.len() <= usize::MAX,
                t <= nlen,
                eq == (forall|u: int| 0 <= u < t ==> hay@[k + u] == needle@[u]),
            decreases nlen - t,
        {
            if hay[k + t] != needle[t] {
                eq = false;
            }
            t = t + 1;
        }
        if eq {
            proof {
                assert(hay@.subrange(k as int, k as int + needle@.len() as int) =~= needle@);
            }
            return true;
        }
        proof {
            let u0 = choose|u: int| 0 <= u < needle@.len() && hay@[k + u] != needle@[u];
            assert(hay@.subrange(k as int, k as int + needle@.len() as int)[u0] == hay@[k + u0]);
        }
        k = k + 1;
    }
    false
}

/// The value of an all-digit byte string read as a decimal number.
pub open spec fn dec_value(s: Seq<u8>) -> nat
    decreases s.len(),
{
    if s.len() == 0 {
        0
    } else {
        dec_value(s.drop_last()) * 10 + (if s.last() >= 48 {
            (s.last() - 48) as nat
        } else {
            0
        })
    }
}

/// Every byte of the string is a decimal digit.
pub open spec fn all_digits(s: Seq<u8>) -> bool {
    forall|i: int| 0 <= i < s.len() ==> is_digit(s[i])
}

proof fn lemma_dec_value_grows(s: Seq<u8>, i: int)
    requires
        0 <= i < s.len(),
    ensures
        dec_value(s.take(i + 1)) >= dec_value(s.take(i)),
{
    assert(s.take(i + 1).drop_last() =~= s.take(i));
    assert(s.take(i + 1).last() == s[i]);
    assert(dec_value(s.take(i + 1)) == dec_value(s.take(i)) * 10 + (if s[i] >= 48 {
        (s[i] - 48) as nat
    } else {
        0
    }));
}

/// Parse a particle id: a non-empty, all-digit decimal field whose value
/// fits in a `u64`. Returns `None` exactly on the fields that are not such
/// a number.
pub fn parse_u64(s: &Vec<u8>) -> (r: Option<u64>)
    ensures
        r is Some <==> (s@.len() >= 1 && all_digits(s@) && dec_value(s@) <= u64::MAX),
        r matches Some(v) ==> v == dec_value(s@),
{
    if s.len() == 0 {
        return None;
    }
    let mut val: u64 = 0;
    let mut overflow = false;
    let mut i: usize = 0;
    while i < s.len()
        invariant
            i <= s@.len(),
            forall|k: int| 0 <= k < i ==> is_digit(s@[k]),
            !overflow ==> val == dec_value(s@.take(i as int)),
            overflow ==> dec_value(s@.take(i as int)) > u64::MAX,
        decreases s@.len() - i,
    {
        let b = s[i];
        if b < 48 || b > 57 {
            return None;
        }
        let d = b - 48;
        proof {
            assert(s@.take(i + 1).drop_last() =~= s@.take(i as int));
            assert(s@.take(i + 1).last() == s@[i as int]);
        }
        if overflow {
            proof {
                lemma_dec_value_grows(s@, i as int);
            }
        } else {
            let wide: u128 = val as u128 * 10 + d as u128;
            if wide > u64::MAX as u128 {
                overflow = true;
            } else {
                val = wide as u64;
            }
        }
        i = i + 1;
    }
    proof {
        assert(s@.take(s@.len() as int) =~= s@);
    }
    if overflow {
        None
    } else {
        Some(val)
    }
}

/// A row of the time-index file takes no part in the time listing when it
/// is blank, is a comment (its first non-whitespace byte is `#`), or does
/// not carry the marker token.
pub open spec fn line_is_skipped(line: Seq<u8>, marker: Seq<u8>) -> bool {
    let a1 = skip_ws(line, 0);
    a1 == line.len() || line[a1] == 35 || !contains_seq(line, marker)
}

/// Where the second whitespace-separated token of the line starts.
pub open spec fn second_token_start(line: Seq<u8>) -> int {
    skip_ws(line, skip_token(line, skip_ws(line, 0)))
}

/// The line has a second whitespace-separated token.
pub open spec fn has_second_token(line: Seq<u8>) -> bool {
    second_token_start(line) < line.len()
}

/// The second whitespace-separated token of the line: in a row of the
/// time-index file that carries the marker, this field is the time value.
pub open spec fn second_token(line: Seq<u8>) -> Seq<u8> {
    line.subrange(second_token_start(line), skip_token(line, second_token_start(line)))
}

/// Extract the time field from one row of the time-index file: `Ok(None)`
/// for rows that take no part in the listing (blank, comment, or without
/// the marker token), `Ok(Some(field))` with the second whitespace-
/// separated token for a marker row that has one, and an error for a
/// marker row without a second field, which is malformed.
pub fn time_row_field(line: &Vec<u8>, marker: &Vec<u8>) -> (r: Result<Option<Vec<u8>>, CpoError>)
    ensures
        line_is_skipped(line@, marker@) ==> r == Result::<Option<Vec<u8>>, CpoError>::Ok(
            Option::<Vec<u8>>::None,
        ),
        !line_is_skipped(line@, marker@) && !has_second_token(line@) ==> r == Result::<
            Option<Vec<u8>>,
            CpoError,
        >::Err(CpoError::MissingTimeField),
        !line_is_skipped(line@, marker@) && has_second_token(line@) ==> (r matches Ok(f)
            && f matches Some(v) && v@ == second_token(line@)),
{
    let a1 = find_non_ws(line, 0);
    if a1 == line.len() {
        return Ok(None);
    }
    if line[a1] == 35 {
        return Ok(None);
    }
    if !contains_subsequence(line, marker) {
        return Ok(None);
    }
    let b1 = find_token_end(line, a1);
    let a2 = find_non_ws(line, b1);
    if a2 == line.len() {
        return Err(CpoError::MissingTimeField);
    }
    let b2 = find_token_end(line, a2);
    let mut field: Vec<u8> = Vec::new();
    let mut p: usize = a2;
    while p < b2
        invariant
            a2 <= p <= b2 <= line@.len(),
            field@ == line@.subrange(a2 as int, p as int),
        decreases b2 - p,
    {
        let ghost prev = field@;
        field.push(line[p]);
        proof {
            assert(field@ =~= line@.subrange(a2 as int, p + 1));
        }
        p = p + 1;
    }
    Ok(Some(field))
}

/// The fold `extract_time_fields` computes: in row order, the time field
/// of every marker row, or the error of the first malformed marker row.
pub open spec fn spec_time_fields(lines: Seq<Seq<u8>>, marker: Seq<u8>) -> Result<
    Seq<Seq<u8>>,
    CpoError,
>
    decreases lines.len(),
{
    if lines.len() == 0 {
        Ok(Seq::empty())
    } else {
        match spec_time_fields(lines.drop_last(), marker) {
            Err(e) => Err(e),
            Ok(fields) => {
                let line = lines.last();
                if line_is_skipped(line, marker) {
                    Ok(fields)
                } else if !has_second_token(line) {
                    Err(CpoError::MissingTimeField)
                } else {
                    Ok(fields.push(second_token(line)))
                }
            },
        }
    }
}

/// Extract, in row order, one time value per marker row of the time-index
/// file, handed over as one line per entry. Rows that are blank, comments,
/// or without the marker token are passed over; a marker row without a
/// second field aborts the whole extraction.
pub fn extract_time_fields(lines: &Vec<Vec<u8>>, marker: &Vec<u8>) -> (r: Result<
    Vec<Vec<u8>>,
    CpoError,
>)
    ensures
        r is Ok <==> spec_time_fields(lines.deep_view(), marker@) is Ok,
        r matches Ok(v) ==> v.deep_view() == spec_time_fields(lines.deep_view(), marker@)->Ok_0,
        r matches Err(e) ==> spec_time_fields(lines.deep_view(), marker@) == Result::<
            Seq<Seq<u8>>,
            CpoError,
        >::Err(e),
{
    let ghost dv = lines.deep_view();
    let mut out: Vec<Vec<u8>> = Vec::new();
    proof {
        assert(dv.take(0) =~= Seq::<Seq<u8>>::empty());
        assert(out.deep_view() =~= Seq::<Seq<u8>>::empty());
    }
    let mut i: usize = 0;
    while i < lines.len()
        invariant
            i <= lines@.len(),
            dv == lines.deep_view(),
            dv.len() == lines@.len(),
            forall|k: int| 0 <= k < lines@.len() ==> dv[k] == lines@[k]@,
            spec_time_fields(dv.take(i as int), marker@) == Result::<Seq<Seq<u8>>, CpoError>::Ok(
                out.deep_view(),
            ),
        decreases lines@.len() - i,
    {
        proof {
            assert(dv.take(i + 1).drop_last() =~= dv.take(i as int));
            assert(dv.take(i + 1).last() == lines@[i as int]@);
        }
        let line = &lines[i];
        match time_row_field(line, marker) {
            Err(e) => {
                proof {
                    lemma_time_fields_err_persists(dv, marker@, i + 1);
                }
                return Err(e);
            },
            Ok(None) => {},
            Ok(Some(field)) => {
                let ghost prev = out.deep_view();
                out.push(field);
                proof {
                    assert(out.deep_view() =~~= prev.push(field@));
                }
            },
        }
        i = i + 1;
    }
    proof {
        assert(dv.take(dv.len() as int) =~= dv);
    }
    Ok(out)
}

/// Once a prefix of the rows ends in an error, the whole listing does.
proof fn lemma_time_fields_err_persists(lines: Seq<Seq<u8>>, marker: Seq<u8>, i: int)
    requires
        0 <= i <= lines.len(),
        spec_time_fields(lines.take(i), marker) is Err,
    ensures
        spec_time_fields(lines, marker) is Err,
        spec_time_fields(lines, marker) == spec_time_fields(lines.take(i), marker),
    decreases lines.len() - i,
{
    if i < lines.len() {
        assert(lines.take(i + 1).drop_last() =~= lines.take(i));
        lemma_time_fields_err_persists(lines, marker, i + 1);
    } else {
        assert(lines.take(i) =~= lines);
    }
}

} // verus!
