//! The compiler's laws: properties that hold across its functions, stated
//! over the same spec functions the contracts use, and proved once.

use vstd::prelude::*;
use vstd::string::*;
use crate::compile::database_of;
use crate::compile::run_outcome;
use crate::parse::descriptor_outcome;
use crate::sort::file_key_fn;
use crate::encode::encode_entry;
use crate::encode::encode_event;
use crate::encode::encode_entry_list;
use crate::encode::encode_record_spec;
use crate::encode::hex2;
use crate::errors::CompileError;
use crate::model::DeviceRecord;
use crate::model::EventSpec;
use crate::model::InputKey;
use crate::model::RawValue;
use crate::model::RemapEntry;
use crate::model::entry_of;
use crate::model::event_of;
use crate::model::family_char;
use crate::model::family_of;
use crate::model::key_byte;
use crate::model::key_of;
use crate::model::record_err_of;
use crate::numtext::parse_u8_spec;
use crate::sort::entry_key_fn;
use crate::sort::insert_by;
use crate::sort::key_is;
use crate::sort::lemma_sort_by_permutes;
use crate::sort::lemma_sort_by_sorted;
use crate::sort::lemma_sort_by_stable;
use crate::sort::sort_by;
use crate::sort::sorted_by;
use crate::symbol::code_of_name;

verus! {

/// LAW: the encoder is deterministic. A record's line and the whole
/// database are functions of the parsed records alone, so compiling the
/// same content twice gives byte-identical output.
pub proof fn lemma_database_deterministic(a: Seq<DeviceRecord>, b: Seq<DeviceRecord>)
    requires
        a == b,
    ensures
        database_of(a) == database_of(b),
        a.len() > 0 ==> encode_record_spec(a[0]) == encode_record_spec(b[0]),
{
}

/// LAW: a whole compilation run is deterministic. `compile` is proved to
/// return exactly what `run_outcome` says of its input, and `run_outcome`
/// is a function of the file names and texts alone, so re-running an
/// unchanged descriptor set gives a byte-identical database.
pub proof fn lemma_run_deterministic(f1: Seq<(String, String)>, f2: Seq<(String, String)>)
    requires
        f1 == f2,
    ensures
        run_outcome(sort_by(f1, file_key_fn())) == run_outcome(sort_by(f2, file_key_fn())),
{
}

/// LAW: any failing descriptor aborts the whole run: if any file's
/// outcome is a failure — an unknown symbol or an unknown device type
/// among them — the run's outcome is a failure, so `compile` returns it
/// and the driver writes nothing.
pub proof fn lemma_descriptor_failure_aborts_run(sorted: Seq<(String, String)>, i: int)
    requires
        0 <= i < sorted.len(),
        descriptor_outcome(sorted[i].0@, sorted[i].1@) is Err,
    ensures
        run_outcome(sorted) is Err,
    decreases sorted.len(),
{
    if i < sorted.len() - 1 {
        assert(sorted.drop_last()[i] == sorted[i]);
        lemma_descriptor_failure_aborts_run(sorted.drop_last(), i);
    }
}

/// LAW: the key comparison is a total order: any two keys compare, two
/// keys that each precede-or-equal the other are the same sequence, and
/// the order is transitive through `lemma_seq_lt_transitive`.
pub proof fn lemma_key_order_total(a: Seq<char>, b: Seq<char>)
    ensures
        crate::strutil::seq_le(a, b) || crate::strutil::seq_le(b, a),
        crate::strutil::seq_le(a, b) && crate::strutil::seq_le(b, a) ==> a == b,
{
    crate::strutil::lemma_seq_lt_asymmetric(a, b);
    crate::strutil::lemma_seq_lt_connected(a, b);
}

/// LAW: the remap ordering is a total, stable order on the case-folded
/// key strings: the sorted entries ascend by folded key, nothing is added
/// or lost, and entries whose keys fold to the same string keep their
/// original relative order.
pub proof fn lemma_remap_order_total_and_stable(s: Seq<RemapEntry>, k: Seq<char>)
    ensures
        sorted_by(sort_by(s, entry_key_fn()), entry_key_fn()),
        sort_by(s, entry_key_fn()).to_multiset() == s.to_multiset(),
        sort_by(s, entry_key_fn()).filter(key_is(entry_key_fn(), k)) == s.filter(
            key_is(entry_key_fn(), k),
        ),
{
    lemma_sort_by_sorted(s, entry_key_fn());
    lemma_sort_by_permutes(s, entry_key_fn());
    lemma_sort_by_stable(s, entry_key_fn(), k);
}

/// LAW: a name outside the symbol table is fatal. A remap key that is
/// neither a decimal numeral nor a known name, and an event name that is
/// unknown, both compile to the unknown-symbol failure naming the
/// offender — never to a wrong byte.
pub proof fn lemma_unknown_symbol_is_fatal(key: String, v: RawValue, name: String)
    ensures
        key_of(key@) is None ==> entry_of(key, v) == Err::<RemapEntry, CompileError>(
            CompileError::UnknownSymbol(key),
        ),
        code_of_name(name@) is None ==> event_of(key, RawValue::Text(name)) == Err::<
            EventSpec,
            CompileError,
        >(CompileError::UnknownSymbol(name)),
{
}

/// LAW: optional parameters are emitted only when present. A simple event
/// is exactly the key byte and the event byte, with no letter suffix; a
/// parameterized event with only `scale` set carries exactly the one `s`
/// suffix with the scale's text.
pub proof fn lemma_optional_fields_only_when_present(e: RemapEntry, c: u8, sc: String)
    ensures
        e.event == EventSpec::Simple(c) ==> encode_entry(e) == hex2(key_byte(e.key)) + hex2(c),
        e.event == (EventSpec::Parameterized {
            event: c,
            max: None,
            min: None,
            scale: Some(sc),
            deadzone: None,
        }) ==> encode_entry(e) == hex2(key_byte(e.key)) + hex2(c) + seq!['s'] + sc@,
{
    if e.event == (EventSpec::Parameterized {
        event: c,
        max: None,
        min: None,
        scale: Some(sc),
        deadzone: None,
    }) {
        assert(encode_event(e.event) =~= hex2(c) + seq!['s'] + sc@);
        assert(encode_entry(e) =~= hex2(key_byte(e.key)) + hex2(c) + seq!['s'] + sc@);
    }
}

/// LAW: separators stand between entries and between records, never at
/// the end. A database of one record with one remap entry is exactly the
/// identifier, the name, a tab, the family tag and that entry's four-or-
/// more characters — no `;` and no trailing newline.
pub proof fn lemma_no_trailing_separators(r: DeviceRecord)
    requires
        r.remap@.len() == 1,
    ensures
        database_of(seq![r]) == r.id@ + r.name@ + seq!['\t'] + seq![family_char(r.family)]
            + encode_entry(r.remap@[0]),
{
    let k = entry_key_fn();
    let s = r.remap@;
    assert(s.drop_last().len() == 0);
    assert(sort_by(s.drop_last(), k) == Seq::<RemapEntry>::empty());
    assert(sort_by(s, k) == insert_by(s.last(), Seq::empty(), k));
    assert(insert_by(s.last(), Seq::<RemapEntry>::empty(), k) == seq![s.last()]);
    assert(encode_entry_list(sort_by(s, k)) == encode_entry(s[0]));
    assert(seq![r][0] == r);
    assert(database_of(seq![r]) == encode_record_spec(r));
}

/// LAW: a numeric raw key is always encoded with the high bit set, so a
/// decoder can tell raw device codes from named codes.
pub proof fn lemma_numeric_key_high_bit(key: String, v: RawValue, n: u8)
    requires
        parse_u8_spec(key@) == Some(n),
    ensures
        entry_of(key, v) matches Ok(e) ==> e.key == InputKey::Numeric(n) && key_byte(e.key) == (n
            | 0x80),
        (n | 0x80) >= 0x80,
{
    assert((n | 0x80) >= 0x80) by (bit_vector);
}

/// LAW: an unrecognized `type` value aborts the whole record with the
/// unknown-device-type failure, before any remap entry is read.
pub proof fn lemma_unknown_type_is_fatal(type_str: String, raw: Seq<(String, RawValue)>)
    requires
        family_of(type_str@) is None,
    ensures
        record_err_of(type_str, raw) == Some(CompileError::UnknownDeviceType(type_str)),
{
}

} // verus!
