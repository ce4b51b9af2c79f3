//! The descriptor reader: walks one parsed TOML document, lifts what the
//! compiler reads into plain values, and builds the device record, with
//! every validation step proved against the model's spec functions.

use vstd::prelude::*;
use vstd::string::*;
use crate::errors::CompileError;
use crate::ext::parse_toml_table;
use crate::ext::table_lookup;
use crate::ext::table_seq;
use crate::ext::toml_parse_err_text;
use crate::ext::toml_table_of;
use crate::ext::value_int_of;
use crate::ext::value_real_text_of;
use crate::ext::value_str_of;
use crate::ext::value_table_of;
use crate::ext::table_entries;
use crate::ext::table_get;
use crate::ext::toml_error_text;
use crate::ext::value_as_integer;
use crate::ext::value_as_str;
use crate::ext::value_as_table;
use crate::ext::value_real_text;
use crate::errors::CompileErrorView;
use crate::model::DeviceRecord;
use crate::model::DeviceRecordView;
use crate::model::EventSpec;
use crate::model::RawField;
use crate::model::RawFieldView;
use crate::model::RawValue;
use crate::model::RawValueView;
use crate::model::RemapEntry;
use crate::model::entries_of;
use crate::model::entries_of_v;
use crate::model::lemma_entries_of_view;
use crate::model::raw_views;
use crate::model::entry_of;
use crate::model::event_of;
use crate::model::family_of;
use crate::model::record_err_of;
use crate::model::resolve_family;
use crate::model::resolve_key;
use crate::symbol::name_to_hex;

verus! {

/// Interprets a remap entry's value, exactly as `event_of` says.
fn build_event(key: &String, v: RawValue) -> (r: Result<EventSpec, CompileError>)
    ensures
        r == event_of(*key, v),
{
    match v {
        RawValue::Text(name) => match name_to_hex(name.as_str()) {
            Some(c) => Ok(EventSpec::Simple(c)),
            None => Err(CompileError::UnknownSymbol(name)),
        },
        RawValue::Params { event, max, min, scale, deadzone } => {
            let c = match event {
                RawField::Absent => 0u8,
                RawField::Text(name) => match name_to_hex(name.as_str()) {
                    Some(c) => c,
                    None => {
                        return Err(CompileError::UnknownSymbol(name));
                    },
                },
                _ => {
                    return Err(CompileError::InvalidMapping(key.clone()));
                },
            };
            let mx = match max {
                RawField::Absent => None,
                RawField::Int(i) => Some(i),
                _ => {
                    return Err(CompileError::InvalidMapping(key.clone()));
                },
            };
            let mn = match min {
                RawField::Absent => None,
                RawField::Int(i) => Some(i),
                _ => {
                    return Err(CompileError::InvalidMapping(key.clone()));
                },
            };
            let sc = match scale {
                RawField::Absent => None,
                RawField::Real(s) => Some(s),
                _ => {
                    return Err(CompileError::InvalidMapping(key.clone()));
                },
            };
            let dz = match deadzone {
                RawField::Absent => None,
                RawField::Real(s) => Some(s),
                _ => {
                    return Err(CompileError::InvalidMapping(key.clone()));
                },
            };
            Ok(EventSpec::Parameterized { event: c, max: mx, min: mn, scale: sc, deadzone: dz })
        },
        RawValue::Other => Err(CompileError::InvalidMapping(key.clone())),
    }
}

/// Compiles one raw remap entry, exactly as `entry_of` says: the key
/// resolves first, then the value.
pub fn build_entry(key: String, v: RawValue) -> (r: Result<RemapEntry, CompileError>)
    ensures
        r == entry_of(key, v),
{
    match resolve_key(key.as_str()) {
        None => Err(CompileError::UnknownSymbol(key)),
        Some(k) => match build_event(&key, v) {
            Err(e) => Err(e),
            Ok(es) => Ok(RemapEntry { key_text: key, key: k, event: es }),
        },
    }
}

/// A failing prefix decides the whole sequence.
proof fn lemma_entries_err_prefix(s: Seq<(String, RawValue)>, k: int)
    requires
        0 <= k <= s.len(),
        entries_of(s.take(k)) is Err,
    ensures
        entries_of(s) == entries_of(s.take(k)),
    decreases s.len() - k,
{
    if k < s.len() {
        assert(s.take(k + 1).drop_last() =~= s.take(k));
        lemma_entries_err_prefix(s, k + 1);
    } else {
        assert(s.take(k) =~= s);
    }
}

/// Builds one device record from its plain fields: the family resolves
/// first, then every remap entry in order, first failure wins.
pub fn build_record(
    id: String,
    name: String,
    type_str: String,
    raw: Vec<(String, RawValue)>,
) -> (r: Result<DeviceRecord, CompileError>)
    ensures
        record_err_of(type_str, raw@) matches Some(e) ==> r == Err::<DeviceRecord, CompileError>(
            e,
        ),
        record_err_of(type_str, raw@) is None ==> (r matches Ok(rec) && rec.id == id && rec.name
            == name && Some(rec.family) == family_of(type_str@) && Ok::<
            Seq<RemapEntry>,
            CompileError,
        >(rec.remap@) == entries_of(raw@)),
{
    let fam = match resolve_family(type_str.as_str()) {
        None => {
            return Err(CompileError::UnknownDeviceType(type_str));
        },
        Some(f) => f,
    };
    let ghost raw0 = raw@;
    let mut rem = raw;
    let mut out: Vec<RemapEntry> = Vec::new();
    proof {
        assert(rem@ =~= raw0.skip(0));
        assert(raw0.take(0).len() == 0);
        assert(entries_of(raw0.take(0)) == Ok::<Seq<RemapEntry>, CompileError>(Seq::empty()));
        assert(out@ =~= Seq::<RemapEntry>::empty());
    }
    while rem.len() > 0
        invariant
            raw0 == raw@,
            Some(fam) == family_of(type_str@),
            rem@ =~= raw0.skip(raw0.len() - rem@.len()),
            rem@.len() <= raw0.len(),
            entries_of(raw0.take(raw0.len() - rem@.len())) == Ok::<Seq<RemapEntry>, CompileError>(
                out@,
            ),
        decreases rem@.len(),
    {
        let ghost i = raw0.len() - rem@.len();
        let kv = rem.remove(0);
        proof {
            assert(kv == raw0[i]);
            assert(rem@ =~= raw0.skip(i + 1));
            assert(raw0.take(i + 1).drop_last() =~= raw0.take(i));
            assert(raw0.take(i + 1).last() == raw0[i]);
        }
        let (k, v) = kv;
        match build_entry(k, v) {
            Ok(en) => {
                out.push(en);
                proof {
                    assert(entries_of(raw0.take(i + 1)) == Ok::<Seq<RemapEntry>, CompileError>(
                        out@,
                    ));
                }
            },
            Err(e) => {
                proof {
                    assert(entries_of(raw0.take(i + 1)) == Err::<Seq<RemapEntry>, CompileError>(
                        e,
                    ));
                    lemma_entries_err_prefix(raw0, i + 1);
                }
                return Err(e);
            },
        }
    }
    proof {
        assert(raw0.take(raw0.len() as int) =~= raw0);
    }
    Ok(DeviceRecord { id, name, family: fam, remap: out })
}

/// What reading a string-shaped field of a parameter table yields.
pub open spec fn lift_field_str_v(t: toml::Table, key: Seq<char>) -> RawFieldView {
    match table_lookup(t, key) {
        None => RawFieldView::Absent,
        Some(v) => match value_str_of(v) {
            Some(s) => RawFieldView::Text(s),
            None => RawFieldView::Other,
        },
    }
}

/// What reading an integer-shaped field of a parameter table yields.
pub open spec fn lift_field_int_v(t: toml::Table, key: Seq<char>) -> RawFieldView {
    match table_lookup(t, key) {
        None => RawFieldView::Absent,
        Some(v) => match value_int_of(v) {
            Some(i) => RawFieldView::Int(i),
            None => RawFieldView::Other,
        },
    }
}

/// What reading a real-shaped field of a parameter table yields.
pub open spec fn lift_field_real_v(t: toml::Table, key: Seq<char>) -> RawFieldView {
    match table_lookup(t, key) {
        None => RawFieldView::Absent,
        Some(v) => match value_real_text_of(v) {
            Some(s) => RawFieldView::Real(s),
            None => RawFieldView::Other,
        },
    }
}

/// What lifting a parameter table yields.
pub open spec fn lift_params_v(t: toml::Table) -> RawValueView {
    RawValueView::Params {
        event: lift_field_str_v(t, "event"@),
        max: lift_field_int_v(t, "max"@),
        min: lift_field_int_v(t, "min"@),
        scale: lift_field_real_v(t, "scale"@),
        deadzone: lift_field_real_v(t, "deadzone"@),
    }
}

/// What lifting one remap value yields: its string payload, the lift of
/// its parameter table, or nothing the format allows.
pub open spec fn lift_value_v(v: toml::Value) -> RawValueView {
    match value_str_of(v) {
        Some(s) => RawValueView::Text(s),
        None => match value_table_of(v) {
            Some(t) => lift_params_v(t),
            None => RawValueView::Other,
        },
    }
}

/// Lifts a remap value that is a table: each recognized field read with
/// the extractor of its expected shape.
fn lift_params(pt: &toml::Table) -> (r: RawValue)
    ensures
        r@ == lift_params_v(*pt),
{
    let event = match table_get(pt, "event") {
        None => RawField::Absent,
        Some(v) => match value_as_str(v) {
            Some(s) => RawField::Text(s),
            None => RawField::Other,
        },
    };
    let max = match table_get(pt, "max") {
        None => RawField::Absent,
        Some(v) => match value_as_integer(v) {
            Some(i) => RawField::Int(i),
            None => RawField::Other,
        },
    };
    let min = match table_get(pt, "min") {
        None => RawField::Absent,
        Some(v) => match value_as_integer(v) {
            Some(i) => RawField::Int(i),
            None => RawField::Other,
        },
    };
    let scale = match table_get(pt, "scale") {
        None => RawField::Absent,
        Some(v) => match value_real_text(v) {
            Some(s) => RawField::Real(s),
            None => RawField::Other,
        },
    };
    let deadzone = match table_get(pt, "deadzone") {
        None => RawField::Absent,
        Some(v) => match value_real_text(v) {
            Some(s) => RawField::Real(s),
            None => RawField::Other,
        },
    };
    RawValue::Params { event, max, min, scale, deadzone }
}

/// Lifts one remap value into the plain model: a string, a table of
/// parameters, or something the format does not allow.
fn lift_value(v: &toml::Value) -> (r: RawValue)
    ensures
        r@ == lift_value_v(*v),
{
    match value_as_str(v) {
        Some(s) => RawValue::Text(s),
        None => match value_as_table(v) {
            Some(pt) => lift_params(pt),
            None => RawValue::Other,
        },
    }
}

/// The raw remap entries a parsed remap table denotes: each key beside
/// the lift of its value.
pub open spec fn remap_raws_v(t: toml::Table) -> Seq<(Seq<char>, RawValueView)> {
    table_seq(t).map_values(|p: (Seq<char>, toml::Value)| (p.0, lift_value_v(p.1)))
}

/// What compiling one descriptor file yields, as a function of the file
/// name and the file text alone: the record's mathematical content on
/// success, the exact failure otherwise. This is the reference that
/// `parse_descriptor` is proved to follow.
pub open spec fn descriptor_outcome(file_name: Seq<char>, contents: Seq<char>) -> Result<
    DeviceRecordView,
    CompileErrorView,
> {
    if file_name.len() < 16 {
        Err(
            CompileErrorView::MalformedDescriptor(
                "descriptor file name does not hold a 16-character identifier"@,
            ),
        )
    } else {
        match toml_table_of(contents) {
            None => Err(CompileErrorView::MalformedDescriptor(toml_parse_err_text(contents))),
            Some(t) => match table_lookup(t, "name"@) {
                None => Err(CompileErrorView::MalformedDescriptor("the name field is missing"@)),
                Some(nv) => match value_str_of(nv) {
                    None => Err(
                        CompileErrorView::MalformedDescriptor("the name field must be a string"@),
                    ),
                    Some(nm) => match table_lookup(t, "type"@) {
                        None => Err(
                            CompileErrorView::MalformedDescriptor("the type field is missing"@),
                        ),
                        Some(tv) => match value_str_of(tv) {
                            None => Err(
                                CompileErrorView::MalformedDescriptor(
                                    "the type field must be a string"@,
                                ),
                            ),
                            Some(ty) => match table_lookup(t, "remap"@) {
                                None => Err(
                                    CompileErrorView::MalformedDescriptor(
                                        "the remap field is missing"@,
                                    ),
                                ),
                                Some(rv) => match value_table_of(rv) {
                                    None => Err(
                                        CompileErrorView::MalformedDescriptor(
                                            "the remap field must be a table"@,
                                        ),
                                    ),
                                    Some(rt) => match family_of(ty) {
                                        None => Err(CompileErrorView::UnknownDeviceType(ty)),
                                        Some(fam) => match entries_of_v(remap_raws_v(rt)) {
                                            Err(e) => Err(e),
                                            Ok(es) => Ok(
                                                DeviceRecordView {
                                                    id: file_name.subrange(0, 16),
                                                    name: nm,
                                                    family: fam,
                                                    remap: es,
                                                },
                                            ),
                                        },
                                    },
                                },
                            },
                        },
                    },
                },
            },
        }
    }
}

/// Parses one descriptor file into a device record, exactly as
/// `descriptor_outcome` says of the file name and text: the identifier
/// is the file name's first 16 characters; the document must carry a
/// string `name`, a string `type` naming a known family, and a `remap`
/// table whose entries all resolve.
pub fn parse_descriptor(file_name: &str, contents: &str) -> (r: Result<DeviceRecord, CompileError>)
    ensures
        (match descriptor_outcome(file_name@, contents@) {
            Ok(rv) => r matches Ok(rec) && rec@ == rv,
            Err(ev) => r matches Err(e) && e@ == ev,
        }),
        file_name@.len() < 16 ==> (r matches Err(e) && e is MalformedDescriptor),
        r matches Ok(rec) ==> rec.id@ == file_name@.subrange(0, 16) && file_name@.len() >= 16,
        r matches Err(e) ==> !(e is Io),
{
    let flen = file_name.unicode_len();
    if flen < 16 {
        return Err(
            CompileError::MalformedDescriptor(
                String::from_str("descriptor file name does not hold a 16-character identifier"),
            ),
        );
    }
    let id = file_name.substring_char(0, 16).to_owned();
    let table = match parse_toml_table(contents) {
        Ok(t) => t,
        Err(e) => {
            return Err(CompileError::MalformedDescriptor(toml_error_text(&e)));
        },
    };
    let name = match table_get(&table, "name") {
        Some(v) => match value_as_str(v) {
            Some(s) => s,
            None => {
                return Err(
                    CompileError::MalformedDescriptor(
                        String::from_str("the name field must be a string"),
                    ),
                );
            },
        },
        None => {
            return Err(
                CompileError::MalformedDescriptor(String::from_str("the name field is missing")),
            );
        },
    };
    let type_str = match table_get(&table, "type") {
        Some(v) => match value_as_str(v) {
            Some(s) => s,
            None => {
                return Err(
                    CompileError::MalformedDescriptor(
                        String::from_str("the type field must be a string"),
                    ),
                );
            },
        },
        None => {
            return Err(
                CompileError::MalformedDescriptor(String::from_str("the type field is missing")),
            );
        },
    };
    let remap_val = match table_get(&table, "remap") {
        Some(v) => v,
        None => {
            return Err(
                CompileError::MalformedDescriptor(String::from_str("the remap field is missing")),
            );
        },
    };
    let remap_tbl = match value_as_table(remap_val) {
        Some(rt) => rt,
        None => {
            return Err(
                CompileError::MalformedDescriptor(
                    String::from_str("the remap field must be a table"),
                ),
            );
        },
    };
    let ghost tbl = *remap_tbl;
    let mut entries = table_entries(remap_tbl);
    let ghost entries0 = entries@;
    let mut raws: Vec<(String, RawValue)> = Vec::new();
    proof {
        assert(entries@ =~= entries0.skip(0));
    }
    while entries.len() > 0
        invariant
            entries0.len() == table_seq(tbl).len(),
            forall|w: int|
                0 <= w < entries0.len() ==> entries0[w].0@ == table_seq(tbl)[w].0
                    && entries0[w].1 == table_seq(tbl)[w].1,
            entries@ =~= entries0.skip(entries0.len() - entries@.len()),
            entries@.len() <= entries0.len(),
            raws@.len() == entries0.len() - entries@.len(),
            forall|w: int|
                0 <= w < raws@.len() ==> raws@[w].0@ == table_seq(tbl)[w].0 && raws@[w].1@
                    == lift_value_v(table_seq(tbl)[w].1),
        decreases entries@.len(),
    {
        let ghost i = entries0.len() - entries@.len();
        let kv = entries.remove(0);
        proof {
            assert(kv == entries0[i]);
            assert(entries@ =~= entries0.skip(i + 1));
        }
        let lifted = lift_value(&kv.1);
        raws.push((kv.0, lifted));
    }
    let ghost raws0 = raws@;
    proof {
        assert(raw_views(raws0) =~= remap_raws_v(tbl));
        lemma_entries_of_view(raws0);
        crate::model::lemma_entries_err_kind(raws0);
    }
    build_record(id, name, type_str, raws)
}

} // verus!
