use vstd::prelude::*;

use crate::error::CpoError;
use crate::text::{all_digits, dec_value};

verus! {

/// The deep view of a decoded table has one entry per row.
broadcast proof fn lemma_table_deep_view_len(v: Vec<Vec<Vec<u8>>>)
    ensures
        (#[trigger] v.deep_view()).len() == v@.len(),
{
}

/// A decoded table's deep view holds the deep view of each row.
broadcast proof fn lemma_table_deep_view_index(v: Vec<Vec<Vec<u8>>>, i: int)
    requires
        0 <= i < v@.len(),
    ensures
        (#[trigger] v.deep_view()[i]) == v@[i].deep_view(),
{
}

/// The deep view of a row has one entry per field.
broadcast proof fn lemma_row_deep_view_len(v: Vec<Vec<u8>>)
    ensures
        (#[trigger] v.deep_view()).len() == v@.len(),
{
}

/// A row's deep view holds the view of each field.
broadcast proof fn lemma_row_deep_view_index(v: Vec<Vec<u8>>, i: int)
    requires
        0 <= i < v@.len(),
    ensures
        (#[trigger] v.deep_view()[i]) == v@[i].deep_view(),
{
}

/// For a field of bytes the deep view is the view itself.
broadcast proof fn lemma_field_deep_view(v: Vec<u8>)
    ensures
        (#[trigger] v.deep_view()) == v@,
{
    assert(v.deep_view() =~= v@);
}

/// What libflate's zlib decoder yields on a byte stream: the decompressed
/// bytes, or nothing when the stream is not a well-formed zlib stream.
pub uninterp spec fn inflate_of(bytes: Seq<u8>) -> Option<Seq<u8>>;

/// Relies on libflate::zlib::Decoder: decompressing is a function of the
/// byte stream alone; a stream whose zlib data cannot be read (bad
/// header, bad deflate data, or checksum mismatch) yields nothing.
#[verifier::external_body]
fn zlib_inflate(bytes: &Vec<u8>) -> (r: Option<Vec<u8>>)
    ensures
        r is Some <==> inflate_of(bytes@) is Some,
        r matches Some(d) ==> Some(d@) == inflate_of(bytes@),
{
    let mut decoder = match libflate::zlib::Decoder::new(bytes.as_slice()) {
        Ok(d) => d,
        Err(_) => return None,
    };
    let mut out = Vec::new();
    match std::io::Read::read_to_end(&mut decoder, &mut out) {
        Ok(_) => Some(out),
        Err(_) => None,
    }
}

/// What csv yields on a byte stream read as a space-delimited table with
/// no header handling: the records as rows of fields, or nothing when
/// some record does not parse (for instance when its field count differs
/// from the first record's).
pub uninterp spec fn csv_rows_of(bytes: Seq<u8>) -> Option<Seq<Seq<Seq<u8>>>>;

/// Relies on csv::ReaderBuilder and csv::Reader: splitting a byte stream
/// into space-delimited rows of fields is a function of the stream alone;
/// a record that fails to parse fails the whole table.
#[verifier::external_body]
fn split_space_table(bytes: &Vec<u8>) -> (r: Option<Vec<Vec<Vec<u8>>>>)
    ensures
        r is Some <==> csv_rows_of(bytes@) is Some,
        r matches Some(rows) ==> Some(rows.deep_view()) == csv_rows_of(bytes@),
{
    let mut rdr = csv::ReaderBuilder::new().has_headers(false).delimiter(b' ').from_reader(
        bytes.as_slice(),
    );
    let mut out: Vec<Vec<Vec<u8>>> = Vec::new();
    for record in rdr.byte_records() {
        match record {
            Ok(rec) => out.push(rec.iter().map(|f| f.to_vec()).collect()),
            Err(_) => return None,
        }
    }
    Some(out)
}

/// The row carries a particle id: a non-empty all-digit first field whose
/// value fits in a `u64`.
pub open spec fn row_id_ok(row: Seq<Seq<u8>>) -> bool {
    row.len() >= 1 && row[0].len() >= 1 && all_digits(row[0]) && dec_value(row[0]) <= u64::MAX
}

/// The row belongs to the particle.
pub open spec fn row_matches(row: Seq<Seq<u8>>, particle_id: u64) -> bool {
    row_id_ok(row) && dec_value(row[0]) == particle_id
}

/// Every row carries a parsable particle id.
pub open spec fn all_rows_id_ok(rows: Seq<Seq<Seq<u8>>>) -> bool {
    forall|k: int| 0 <= k < rows.len() ==> row_id_ok(#[trigger] rows[k])
}

/// The data rows of a decoded table: everything after the header row, and
/// nothing when the table is empty.
pub open spec fn data_rows(rows: Seq<Seq<Seq<u8>>>) -> Seq<Seq<Seq<u8>>> {
    if rows.len() == 0 {
        Seq::empty()
    } else {
        rows.skip(1)
    }
}

/// The rows that belong to the particle, in their original order.
pub open spec fn matching_rows(rows: Seq<Seq<Seq<u8>>>, particle_id: u64) -> Seq<Seq<Seq<u8>>>
    decreases rows.len(),
{
    if rows.len() == 0 {
        Seq::empty()
    } else {
        let rest = matching_rows(rows.skip(1), particle_id);
        if row_matches(rows[0], particle_id) {
            seq![rows[0]] + rest
        } else {
            rest
        }
    }
}

/// The metadata row of the particle: the last row whose id matches (the
/// record loader keeps overwriting, so a duplicated id resolves to the
/// last row), or nothing when the id is absent from the shard.
pub open spec fn last_matching_row(rows: Seq<Seq<Seq<u8>>>, particle_id: u64) -> Option<
    Seq<Seq<u8>>,
>
    decreases rows.len(),
{
    if rows.len() == 0 {
        None
    } else if row_matches(rows.last(), particle_id) {
        Some(rows.last())
    } else {
        last_matching_row(rows.drop_last(), particle_id)
    }
}

/// Filter the decoded rows of a grain shard down to the rows that belong
/// to the particle. The first row of a decoded table is its header and
/// takes no part; every data row must carry a parsable id, else the shard
/// is malformed and the whole request is aborted.
#[verifier::loop_isolation(false)]
pub fn grain_rows_for_particle(rows: Vec<Vec<Vec<u8>>>, particle_id: u64) -> (r: Result<
    Vec<Vec<Vec<u8>>>,
    CpoError,
>)
    ensures
        r is Ok <==> all_rows_id_ok(data_rows(rows.deep_view())),
        r matches Ok(v) ==> v.deep_view() == matching_rows(data_rows(rows.deep_view()), particle_id),
        r matches Err(e) ==> e == CpoError::UnparsableField,
{
    broadcast use lemma_table_deep_view_len, lemma_table_deep_view_index, lemma_row_deep_view_len, lemma_row_deep_view_index, lemma_field_deep_view;

    let ghost data = data_rows(rows.deep_view());
    let mut rows = rows;
    if rows.len() == 0 {
        let out: Vec<Vec<Vec<u8>>> = Vec::new();
        proof {
            assert(out.deep_view() =~~= matching_rows(data, particle_id));
        }
        return Ok(out);
    }
    let ghost before_rows = rows@;
    let _header = rows.remove(0);
    proof {
        assert(rows@ =~= before_rows.skip(1));
    }
    let mut out: Vec<Vec<Vec<u8>>> = Vec::new();
    let ghost mut p: int = 0;
    proof {
        assert forall|i: int| 0 <= i < rows@.len() implies (#[trigger] rows@[i]).deep_view()
            == data[i] by {
            assert(rows@[i] == before_rows[i + 1]);
        }
        assert(out.deep_view() =~~= Seq::<Seq<Seq<u8>>>::empty());
        assert(data.skip(0) =~= data);
    }
    while rows.len() > 0
        invariant
            0 <= p <= data.len(),
            rows@.len() == data.len() - p,
            forall|i: int| 0 <= i < rows@.len() ==> (#[trigger] rows@[i]).deep_view() == data[p + i],
            forall|k: int| 0 <= k < p ==> row_id_ok(#[trigger] data[k]),
            out.deep_view() + matching_rows(data.skip(p), particle_id) == matching_rows(
                data,
                particle_id,
            ),
        decreases rows@.len(),
    {
        let ghost before_e = rows@;
        let row = rows.remove(0);
        proof {
            assert(rows@ =~= before_e.skip(1));
            assert(row.deep_view() == data[p]);
            assert forall|i: int| 0 <= i < rows@.len() implies (#[trigger] rows@[i]).deep_view()
                == data[p + 1 + i] by {
                assert(rows@[i] == before_e[i + 1]);
                assert(before_e[i + 1].deep_view() == data[p + (i + 1)]);
            }
        }
        if row.len() == 0 {
            proof {
                assert(!row_id_ok(data[p]));
            }
            return Err(CpoError::UnparsableField);
        }
        let id = crate::text::parse_u64(&row[0]);
        match id {
            None => {
                proof {
                    assert(row.deep_view()[0] == row@[0]@);
                    assert(!row_id_ok(data[p]));
                }
                return Err(CpoError::UnparsableField);
            },
            Some(v) => {
                proof {
                    assert(row.deep_view()[0] == row@[0]@);
                    assert(row_id_ok(data[p]));
                    assert(matching_rows(data.skip(p), particle_id) == (if row_matches(
                        data[p],
                        particle_id,
                    ) {
                        seq![data[p]] + matching_rows(data.skip(p + 1), particle_id)
                    } else {
                        matching_rows(data.skip(p + 1), particle_id)
                    })) by {
                        assert(data.skip(p).len() > 0);
                        assert(data.skip(p)[0] == data[p]);
                        assert(data.skip(p).skip(1) =~= data.skip(p + 1));
                    }
                }
                if v == particle_id {
                    proof {
                        assert(row_matches(data[p], particle_id));
                    }
                    let ghost prev = out.deep_view();
                    out.push(row);
                    proof {
                        assert(out.deep_view() =~~= prev.push(data[p]));
                        assert(prev.push(data[p]) + matching_rows(data.skip(p + 1), particle_id)
                            =~= prev + (seq![data[p]] + matching_rows(
                            data.skip(p + 1),
                            particle_id,
                        )));
                    }
                } else {
                    proof {
                        assert(!row_matches(data[p], particle_id));
                    }
                }
            },
        }
        proof {
            p = p + 1;
        }
    }
    proof {
        assert(data.skip(p) =~= Seq::<Seq<Seq<u8>>>::empty());
        assert(p == data.len());
        assert(out.deep_view() + matching_rows(data.skip(p), particle_id) =~= out.deep_view());
    }
    Ok(out)
}

/// Find the particle's metadata record among the decoded rows of a
/// metadata shard: the last data row whose id matches, or nothing when the
/// id is absent (the caller then falls back to a zeroed record). Every
/// data row must carry a parsable id, else the shard is malformed.
#[verifier::loop_isolation(false)]
pub fn metadata_row_for_particle(rows: Vec<Vec<Vec<u8>>>, particle_id: u64) -> (r: Result<
    Option<Vec<Vec<u8>>>,
    CpoError,
>)
    ensures
        r is Ok <==> all_rows_id_ok(data_rows(rows.deep_view())),
        r matches Ok(m) ==> {
            &&& (m is Some <==> last_matching_row(data_rows(rows.deep_view()), particle_id)
                is Some)
            &&& (m matches Some(row) ==> Some(row.deep_view()) == last_matching_row(
                data_rows(rows.deep_view()),
                particle_id,
            ))
        },
        r matches Err(e) ==> e == CpoError::UnparsableField,
{
    broadcast use lemma_table_deep_view_len, lemma_table_deep_view_index, lemma_row_deep_view_len, lemma_row_deep_view_index, lemma_field_deep_view;

    let ghost data = data_rows(rows.deep_view());
    let mut rows = rows;
    if rows.len() == 0 {
        return Ok(None);
    }
    let ghost before_rows = rows@;
    let _header = rows.remove(0);
    proof {
        assert(rows@ =~= before_rows.skip(1));
    }
    let mut found: Option<Vec<Vec<u8>>> = None;
    let ghost mut p: int = 0;
    proof {
        assert forall|i: int| 0 <= i < rows@.len() implies (#[trigger] rows@[i]).deep_view()
            == data[i] by {
            assert(rows@[i] == before_rows[i + 1]);
        }
        assert(data.take(0) =~= Seq::<Seq<Seq<u8>>>::empty());
    }
    while rows.len() > 0
        invariant
            0 <= p <= data.len(),
            rows@.len() == data.len() - p,
            forall|i: int|
                0 <= i < rows@.len() ==> (#[trigger] rows@[i]).deep_view() == data[p + i],
            forall|k: int| 0 <= k < p ==> row_id_ok(#[trigger] data[k]),
            found is Some <==> last_matching_row(data.take(p), particle_id) is Some,
            found matches Some(row) ==> Some(row.deep_view()) == last_matching_row(
                data.take(p),
                particle_id,
            ),
        decreases rows@.len(),
    {
        let ghost before_e = rows@;
        let row = rows.remove(0);
        proof {
            assert(rows@ =~= before_e.skip(1));
            assert(row.deep_view() == data[p]);
            assert forall|i: int| 0 <= i < rows@.len() implies (#[trigger] rows@[i]).deep_view()
                == data[p + 1 + i] by {
                assert(rows@[i] == before_e[i + 1]);
                assert(before_e[i + 1].deep_view() == data[p + (i + 1)]);
            }
            assert(data.take(p + 1).drop_last() =~= data.take(p));
            assert(data.take(p + 1).last() == data[p]);
        }
        if row.len() == 0 {
            proof {
                assert(!row_id_ok(data[p]));
            }
            return Err(CpoError::UnparsableField);
        }
        let id = crate::text::parse_u64(&row[0]);
        match id {
            None => {
                proof {
                    assert(row.deep_view()[0] == row@[0]@);
                    assert(!row_id_ok(data[p]));
                }
                return Err(CpoError::UnparsableField);
            },
            Some(v) => {
                proof {
                    assert(row.deep_view()[0] == row@[0]@);
                    assert(row_id_ok(data[p]));
                }
                if v == particle_id {
                    proof {
                        assert(row_matches(data[p], particle_id));
                    }
                    found = Some(row);
                } else {
                    proof {
                        assert(!row_matches(data[p], particle_id));
                    }
                }
            },
        }
        proof {
            p = p + 1;
        }
    }
    proof {
        assert(data.take(p) =~= data);
    }
    Ok(found)
}

/// The byte stream a shard's table is decoded from: the shard's bytes
/// themselves, or their zlib decompression when the data was written
/// compressed.
pub open spec fn shard_stream(bytes: Seq<u8>, compressed: bool) -> Option<Seq<u8>> {
    if compressed {
        inflate_of(bytes)
    } else {
        Some(bytes)
    }
}

/// The decoded table of a shard: its byte stream split into rows of
/// fields, where either step may find the shard malformed.
pub open spec fn shard_table(bytes: Seq<u8>, compressed: bool) -> Option<Seq<Seq<Seq<u8>>>> {
    match shard_stream(bytes, compressed) {
        Option::None => None,
        Option::Some(stream) => csv_rows_of(stream),
    }
}

/// Decode one grain-data shard for one particle: decompress the bytes if
/// the experiment's data is compressed, split them into rows of fields,
/// and keep exactly the data rows that carry the particle's id, in order.
///
/// Failure modes, each if and only if its stage fails: an undecodable
/// compressed stream, a stream that does not split into a table, and a
/// data row without a parsable id. Any of them aborts the whole request;
/// no partial result is produced.
pub fn decode_grain_shard(bytes: &Vec<u8>, compressed: bool, particle_id: u64) -> (r: Result<
    Vec<Vec<Vec<u8>>>,
    CpoError,
>)
    ensures
        r == Result::<Vec<Vec<Vec<u8>>>, CpoError>::Err(CpoError::UndecodableStream)
            <==> shard_stream(bytes@, compressed) is None,
        r == Result::<Vec<Vec<Vec<u8>>>, CpoError>::Err(CpoError::MalformedTable) <==> (
        shard_stream(bytes@, compressed) is Some && shard_table(bytes@, compressed) is None),
        r == Result::<Vec<Vec<Vec<u8>>>, CpoError>::Err(CpoError::UnparsableField) <==> (
        shard_table(bytes@, compressed) matches Some(t) && !all_rows_id_ok(data_rows(t))),
        r is Ok <==> (shard_table(bytes@, compressed) matches Some(t) && all_rows_id_ok(
            data_rows(t),
        )),
        r matches Ok(v) ==> v.deep_view() == matching_rows(
            data_rows(shard_table(bytes@, compressed)->Some_0),
            particle_id,
        ),
{
    let rows_opt = if compressed {
        match zlib_inflate(bytes) {
            None => {
                return Err(CpoError::UndecodableStream);
            },
            Some(d) => split_space_table(&d),
        }
    } else {
        split_space_table(bytes)
    };
    match rows_opt {
        None => Err(CpoError::MalformedTable),
        Some(rows) => grain_rows_for_particle(rows, particle_id),
    }
}

/// Decode one particle-metadata shard (metadata shards are never
/// compressed) and find the particle's metadata row: the last data row
/// carrying its id, or nothing when the id is absent from this shard.
pub fn decode_metadata_shard(bytes: &Vec<u8>, particle_id: u64) -> (r: Result<
    Option<Vec<Vec<u8>>>,
    CpoError,
>)
    ensures
        r == Result::<Option<Vec<Vec<u8>>>, CpoError>::Err(CpoError::MalformedTable)
            <==> csv_rows_of(bytes@) is None,
        r == Result::<Option<Vec<Vec<u8>>>, CpoError>::Err(CpoError::UnparsableField) <==> (
        csv_rows_of(bytes@) matches Some(t) && !all_rows_id_ok(data_rows(t))),
        r is Ok <==> (csv_rows_of(bytes@) matches Some(t) && all_rows_id_ok(data_rows(t))),
        r matches Ok(m) ==> {
            &&& (m is Some <==> last_matching_row(
                data_rows(csv_rows_of(bytes@)->Some_0),
                particle_id,
            ) is Some)
            &&& (m matches Some(row) ==> Some(row.deep_view()) == last_matching_row(
                data_rows(csv_rows_of(bytes@)->Some_0),
                particle_id,
            ))
        },
{
    match split_space_table(bytes) {
        None => Err(CpoError::MalformedTable),
        Some(rows) => metadata_row_for_particle(rows, particle_id),
    }
}

} // verus!
