//! The aggregator: compiles every descriptor file into one database
//! string, records separated by a single newline and none after the last.

use vstd::prelude::*;
use vstd::string::*;
use crate::errors::CompileError;
use crate::errors::CompileErrorView;
use crate::encode::encode;
use crate::encode::encode_record_spec;
use crate::encode::encode_record_v;
use crate::encode::lemma_encode_record_view;
use crate::model::DeviceRecord;
use crate::model::DeviceRecordView;
use crate::parse::descriptor_outcome;
use crate::parse::parse_descriptor;
use crate::sort::file_key_fn;
use crate::sort::sort_by;
use crate::sort::sort_file_list;

verus! {

/// The whole database: the records' lines joined by a newline, with no
/// trailing newline after the last record.
pub open spec fn database_of(records: Seq<DeviceRecord>) -> Seq<char>
    decreases records.len(),
{
    if records.len() == 0 {
        Seq::empty()
    } else if records.len() == 1 {
        encode_record_spec(records[0])
    } else {
        database_of(records.drop_last()) + seq!['\n'] + encode_record_spec(records.last())
    }
}

/// The whole database, over record views: a function of the records'
/// mathematical content alone.
pub open spec fn database_v(records: Seq<DeviceRecordView>) -> Seq<char>
    decreases records.len(),
{
    if records.len() == 0 {
        Seq::empty()
    } else if records.len() == 1 {
        encode_record_v(records[0])
    } else {
        database_v(records.drop_last()) + seq!['\n'] + encode_record_v(records.last())
    }
}

/// Serializes the given records, in order, to the database text.
pub fn compile_records(records: Vec<DeviceRecord>) -> (r: String)
    ensures
        r@ == database_of(records@),
{
    let ghost orig = records@;
    let mut rem = records;
    let mut out = String::new();
    let mut first = true;
    proof {
        assert(rem@ =~= orig.skip(0));
        assert(orig.take(0).len() == 0);
        assert(out@ =~= database_of(orig.take(0)));
    }
    while rem.len() > 0
        invariant
            orig == records@,
            rem@ =~= orig.skip(orig.len() - rem@.len()),
            rem@.len() <= orig.len(),
            first == (rem@.len() == orig.len()),
            out@ == database_of(orig.take(orig.len() - rem@.len())),
        decreases rem@.len(),
    {
        let ghost i = orig.len() - rem@.len();
        let rec = rem.remove(0);
        proof {
            reveal_strlit("\n");
            assert(rec == orig[i]);
            assert(rem@ =~= orig.skip(i + 1));
            assert(orig.take(i + 1).drop_last() =~= orig.take(i));
            assert(orig.take(i + 1).last() == orig[i]);
        }
        if !first {
            out.append("\n");
        }
        let line = encode(rec);
        out.append(line.as_str());
        first = false;
        proof {
            if i == 0 {
                assert(orig.take(1)[0] == orig[0]);
                assert(out@ =~= database_of(orig.take(1)));
            } else {
                assert(out@ =~= database_of(orig.take(i + 1)));
            }
        }
    }
    proof {
        assert(orig.take(orig.len() as int) =~= orig);
    }
    out
}

/// What a whole run yields as a function of the (already sorted)
/// descriptor files alone: the records' mathematical content in order, or
/// the first failure.
pub open spec fn run_outcome(sorted: Seq<(String, String)>) -> Result<
    Seq<DeviceRecordView>,
    CompileErrorView,
>
    decreases sorted.len(),
{
    if sorted.len() == 0 {
        Ok(Seq::empty())
    } else {
        match run_outcome(sorted.drop_last()) {
            Err(e) => Err(e),
            Ok(rs) => match descriptor_outcome(sorted.last().0@, sorted.last().1@) {
                Err(e) => Err(e),
                Ok(rv) => Ok(rs.push(rv)),
            },
        }
    }
}

/// The views of a sequence of device records.
pub open spec fn record_views(rs: Seq<DeviceRecord>) -> Seq<DeviceRecordView> {
    rs.map_values(|r: DeviceRecord| r@)
}

/// The database is the same seen through record views.
pub proof fn lemma_database_view(rs: Seq<DeviceRecord>)
    ensures
        database_of(rs) == database_v(record_views(rs)),
    decreases rs.len(),
{
    let rv = record_views(rs);
    if rs.len() == 0 {
    } else if rs.len() == 1 {
        assert(rv[0] == rs[0]@);
        lemma_encode_record_view(rs[0]);
    } else {
        lemma_database_view(rs.drop_last());
        lemma_encode_record_view(rs.last());
        assert(rv.drop_last() =~= record_views(rs.drop_last()));
        assert(rv.last() == rs.last()@);
    }
}

/// A failing prefix decides the whole run.
proof fn lemma_run_err_prefix(s: Seq<(String, String)>, k: int)
    requires
        0 <= k <= s.len(),
        run_outcome(s.take(k)) is Err,
    ensures
        run_outcome(s) == run_outcome(s.take(k)),
    decreases s.len() - k,
{
    if k < s.len() {
        assert(s.take(k + 1).drop_last() =~= s.take(k));
        lemma_run_err_prefix(s, k + 1);
    } else {
        assert(s.take(k) =~= s);
    }
}

/// Compiles a whole set of descriptor files, each given as its file name
/// beside its text. The files are first sorted by file name, so the
/// output does not depend on the order a directory listed them in; any
/// failure in any file aborts the run with that failure and no output.
/// The result is exactly what `run_outcome` says of the sorted files.
pub fn compile(files: Vec<(String, String)>) -> (r: Result<String, CompileError>)
    ensures
        (match run_outcome(sort_by(files@, file_key_fn())) {
            Ok(rvs) => r matches Ok(s) && s@ == database_v(rvs),
            Err(ev) => r matches Err(e) && e@ == ev,
        }),
        files@.len() == 0 ==> (r matches Ok(s) && s@ == Seq::<char>::empty()),
        r matches Ok(s) ==> exists|records: Seq<DeviceRecord>| s@ == database_of(records),
        r matches Err(e) ==> !(e is Io),
{
    let ghost n = files@.len();
    let ghost sorted0 = sort_by(files@, file_key_fn());
    let sorted = sort_file_list(files);
    proof {
        crate::sort::lemma_sort_by_sorted(files@, file_key_fn());
    }
    let mut records: Vec<DeviceRecord> = Vec::new();
    let mut rem = sorted;
    proof {
        assert(rem@ =~= sorted0.skip(0));
        assert(record_views(records@) =~= Seq::<DeviceRecordView>::empty());
        assert(run_outcome(sorted0.take(0)) == Ok::<Seq<DeviceRecordView>, CompileErrorView>(
            record_views(records@),
        )) by {
            assert(sorted0.take(0).len() == 0);
        }
    }
    while rem.len() > 0
        invariant
            n == files@.len(),
            sorted0 == sort_by(files@, file_key_fn()),
            sorted0.len() == n,
            rem@ =~= sorted0.skip(sorted0.len() - rem@.len()),
            rem@.len() <= sorted0.len(),
            run_outcome(sorted0.take(sorted0.len() - rem@.len())) == Ok::<
                Seq<DeviceRecordView>,
                CompileErrorView,
            >(record_views(records@)),
        decreases rem@.len(),
    {
        let ghost i = sorted0.len() - rem@.len();
        let kv = rem.remove(0);
        proof {
            assert(kv == sorted0[i]);
            assert(rem@ =~= sorted0.skip(i + 1));
            assert(sorted0.take(i + 1).drop_last() =~= sorted0.take(i));
            assert(sorted0.take(i + 1).last() == sorted0[i]);
        }
        let (fname, contents) = kv;
        match parse_descriptor(fname.as_str(), contents.as_str()) {
            Ok(rec) => {
                let ghost recs0 = records@;
                records.push(rec);
                proof {
                    assert(descriptor_outcome(sorted0[i].0@, sorted0[i].1@) == Ok::<
                        DeviceRecordView,
                        CompileErrorView,
                    >(rec@));
                    assert(record_views(records@) =~= record_views(recs0).push(rec@));
                    assert(run_outcome(sorted0.take(i + 1)) == Ok::<
                        Seq<DeviceRecordView>,
                        CompileErrorView,
                    >(record_views(records@)));
                }
            },
            Err(e) => {
                proof {
                    assert(run_outcome(sorted0.take(i + 1)) == Err::<
                        Seq<DeviceRecordView>,
                        CompileErrorView,
                    >(e@));
                    lemma_run_err_prefix(sorted0, i + 1);
                }
                return Err(e);
            },
        }
    }
    let ghost recs = records@;
    let out = compile_records(records);
    proof {
        assert(sorted0.take(sorted0.len() as int) =~= sorted0);
        lemma_database_view(recs);
        assert(out@ == database_of(recs));
        if n == 0 {
            assert(recs.len() == 0);
            assert(out@ =~= Seq::<char>::empty());
        }
    }
    Ok(out)
}

} // verus!
