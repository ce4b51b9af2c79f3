//! The descriptor model: device records, remap entries, and the exact
//! interpretation of raw descriptor fields into them.

use vstd::prelude::*;
use vstd::string::*;
use crate::errors::CompileError;
use crate::errors::CompileErrorView;
use crate::numtext::parse_u8_spec;
use crate::numtext::parse_u8;
use crate::strutil::str_eq;
use crate::symbol::code_of_name;
use crate::symbol::name_to_hex;

verus! {

/// Coarse device category, encoded as one character in the database.
#[derive(Clone, Copy, Debug, PartialEq, Eq, Structural)]
pub enum Family {
    Xbox,
    PlayStation,
    Nintendo,
    Flight,
}

/// The family named by a descriptor's `type` field.
pub open spec fn family_of(s: Seq<char>) -> Option<Family> {
    if s == "xbox"@ {
        Some(Family::Xbox)
    } else if s == "playstation"@ {
        Some(Family::PlayStation)
    } else if s == "nintendo"@ {
        Some(Family::Nintendo)
    } else if s == "flight"@ {
        Some(Family::Flight)
    } else {
        None
    }
}

/// The single-character tag of a family.
pub open spec fn family_char(f: Family) -> char {
    match f {
        Family::Xbox => 'x',
        Family::PlayStation => 'p',
        Family::Nintendo => 'n',
        Family::Flight => 'f',
    }
}

/// The raw key under which a remap entry is declared: a symbol-table name
/// resolved to its code, or a decimal raw device code.
#[derive(Clone, Copy, Debug, PartialEq, Eq, Structural)]
pub enum InputKey {
    Named(u8),
    Numeric(u8),
}

/// The byte a key is encoded as: numeric raw codes carry the high bit, so
/// a decoder can tell them from named codes.
pub open spec fn key_byte(k: InputKey) -> u8 {
    match k {
        InputKey::Named(c) => c,
        InputKey::Numeric(n) => n | 0x80,
    }
}

/// How a remap key reads: a decimal 8-bit numeral is a raw device code;
/// anything else must be a symbol-table name.
pub open spec fn key_of(s: Seq<char>) -> Option<InputKey> {
    match parse_u8_spec(s) {
        Some(n) => Some(InputKey::Numeric(n)),
        None => match code_of_name(s) {
            Some(c) => Some(InputKey::Named(c)),
            None => None,
        },
    }
}

/// What an input maps to: a logical event, optionally with numeric
/// transform parameters. Absent parameters are omitted from the encoding.
/// `scale` and `deadzone` hold the decimal text of the real value exactly
/// as it will be emitted.
#[derive(Clone, Debug)]
pub enum EventSpec {
    Simple(u8),
    Parameterized {
        event: u8,
        max: Option<i64>,
        min: Option<i64>,
        scale: Option<String>,
        deadzone: Option<String>,
    },
}

/// One declared remap: the key's original spelling (which drives the
/// deterministic ordering), its resolved form, and the event it maps to.
#[derive(Clone, Debug)]
pub struct RemapEntry {
    pub key_text: String,
    pub key: InputKey,
    pub event: EventSpec,
}

/// One compiled descriptor.
#[derive(Clone, Debug)]
pub struct DeviceRecord {
    /// The fixed 16-character identifier from the descriptor's file name.
    pub id: String,
    /// Free-form display name.
    pub name: String,
    pub family: Family,
    pub remap: Vec<RemapEntry>,
}

/// One field of a parameterized remap value, as read from a descriptor:
/// absent, of the expected shape, or of some other shape.
#[derive(Debug)]
pub enum RawField {
    Absent,
    /// A string field.
    Text(String),
    /// An integer field.
    Int(i64),
    /// A real field, carried as its decimal text.
    Real(String),
    /// Present but of the wrong shape.
    Other,
}

/// A remap entry's value as read from a descriptor, before any name
/// resolution: a bare event name, a table of tuning parameters, or
/// something else entirely.
#[derive(Debug)]
pub enum RawValue {
    Text(String),
    Params { event: RawField, max: RawField, min: RawField, scale: RawField, deadzone: RawField },
    Other,
}

/// An optional integer parameter: absent or an integer; any other shape
/// is an invalid mapping, reported under the entry's key.
pub open spec fn int_param_of(f: RawField, key: String) -> Result<Option<i64>, CompileError> {
    match f {
        RawField::Absent => Ok(None),
        RawField::Int(i) => Ok(Some(i)),
        _ => Err(CompileError::InvalidMapping(key)),
    }
}

/// An optional real parameter: absent or a real; any other shape is an
/// invalid mapping. An integer literal is not accepted as a real.
pub open spec fn real_param_of(f: RawField, key: String) -> Result<Option<String>, CompileError> {
    match f {
        RawField::Absent => Ok(None),
        RawField::Real(s) => Ok(Some(s)),
        _ => Err(CompileError::InvalidMapping(key)),
    }
}

/// The event code of a parameterized value: the resolved `event` name, or
/// the code of "None" (0x00) when the field is absent.
pub open spec fn param_event_of(f: RawField, key: String) -> Result<u8, CompileError> {
    match f {
        RawField::Absent => Ok(0u8),
        RawField::Text(name) => match code_of_name(name@) {
            Some(c) => Ok(c),
            None => Err(CompileError::UnknownSymbol(name)),
        },
        _ => Err(CompileError::InvalidMapping(key)),
    }
}

/// What a remap entry's value means: a bare string resolves as an event
/// name; a table yields a parameterized event; anything else is an
/// invalid mapping. Fields are read in the order event, max, min, scale,
/// deadzone, and the first failure wins.
pub open spec fn event_of(key: String, v: RawValue) -> Result<EventSpec, CompileError> {
    match v {
        RawValue::Text(name) => match code_of_name(name@) {
            Some(c) => Ok(EventSpec::Simple(c)),
            None => Err(CompileError::UnknownSymbol(name)),
        },
        RawValue::Params { event, max, min, scale, deadzone } => match param_event_of(
            event,
            key,
        ) {
            Err(e) => Err(e),
            Ok(c) => match int_param_of(max, key) {
                Err(e) => Err(e),
                Ok(mx) => match int_param_of(min, key) {
                    Err(e) => Err(e),
                    Ok(mn) => match real_param_of(scale, key) {
                        Err(e) => Err(e),
                        Ok(sc) => match real_param_of(deadzone, key) {
                            Err(e) => Err(e),
                            Ok(dz) => Ok(
                                EventSpec::Parameterized {
                                    event: c,
                                    max: mx,
                                    min: mn,
                                    scale: sc,
                                    deadzone: dz,
                                },
                            ),
                        },
                    },
                },
            },
        },
        RawValue::Other => Err(CompileError::InvalidMapping(key)),
    }
}

/// What one raw remap entry compiles to: the key resolves first (an
/// unresolvable key is an unknown symbol), then the value.
pub open spec fn entry_of(key: String, v: RawValue) -> Result<RemapEntry, CompileError> {
    match key_of(key@) {
        None => Err(CompileError::UnknownSymbol(key)),
        Some(k) => match event_of(key, v) {
            Err(e) => Err(e),
            Ok(es) => Ok(RemapEntry { key_text: key, key: k, event: es }),
        },
    }
}

/// What a sequence of raw remap entries compiles to, in order; the first
/// failure aborts the whole sequence.
pub open spec fn entries_of(raw: Seq<(String, RawValue)>) -> Result<Seq<RemapEntry>, CompileError>
    decreases raw.len(),
{
    if raw.len() == 0 {
        Ok(Seq::empty())
    } else {
        match entries_of(raw.drop_last()) {
            Err(e) => Err(e),
            Ok(s) => match entry_of(raw.last().0, raw.last().1) {
                Err(e) => Err(e),
                Ok(en) => Ok(s.push(en)),
            },
        }
    }
}

/// Remap entries fail only by unknown symbol or invalid mapping; the
/// other failure kinds belong to other stages.
pub proof fn lemma_entries_err_kind(raw: Seq<(String, RawValue)>)
    ensures
        entries_of(raw) matches Err(e) ==> e is UnknownSymbol || e is InvalidMapping,
    decreases raw.len(),
{
    if raw.len() > 0 {
        lemma_entries_err_kind(raw.drop_last());
    }
}

/// The failure of compiling one descriptor's fields, if any: an unknown
/// device type aborts before any remap entry is looked at.
pub open spec fn record_err_of(type_str: String, raw: Seq<(String, RawValue)>) -> Option<
    CompileError,
> {
    if family_of(type_str@) is None {
        Some(CompileError::UnknownDeviceType(type_str))
    } else {
        match entries_of(raw) {
            Err(e) => Some(e),
            Ok(s) => None,
        }
    }
}

/// An event spec as mathematical data.
pub enum EventSpecView {
    Simple(u8),
    Parameterized {
        event: u8,
        max: Option<i64>,
        min: Option<i64>,
        scale: Option<Seq<char>>,
        deadzone: Option<Seq<char>>,
    },
}

/// A remap entry as mathematical data.
pub struct RemapEntryView {
    pub key_text: Seq<char>,
    pub key: InputKey,
    pub event: EventSpecView,
}

/// A device record as mathematical data.
pub struct DeviceRecordView {
    pub id: Seq<char>,
    pub name: Seq<char>,
    pub family: Family,
    pub remap: Seq<RemapEntryView>,
}

/// A raw parameter field as mathematical data.
pub enum RawFieldView {
    Absent,
    Text(Seq<char>),
    Int(i64),
    Real(Seq<char>),
    Other,
}

/// A raw remap value as mathematical data.
pub enum RawValueView {
    Text(Seq<char>),
    Params {
        event: RawFieldView,
        max: RawFieldView,
        min: RawFieldView,
        scale: RawFieldView,
        deadzone: RawFieldView,
    },
    Other,
}

impl View for EventSpec {
    type V = EventSpecView;

    open spec fn view(&self) -> EventSpecView {
        match self {
            EventSpec::Simple(c) => EventSpecView::Simple(*c),
            EventSpec::Parameterized { event, max, min, scale, deadzone } => (
                EventSpecView::Parameterized {
                    event: *event,
                    max: *max,
                    min: *min,
                    scale: match scale {
                        Some(s) => Some(s@),
                        None => None,
                    },
                    deadzone: match deadzone {
                        Some(s) => Some(s@),
                        None => None,
                    },
                }
            ),
        }
    }
}

impl View for RemapEntry {
    type V = RemapEntryView;

    open spec fn view(&self) -> RemapEntryView {
        RemapEntryView { key_text: self.key_text@, key: self.key, event: self.event@ }
    }
}

/// The views of a sequence of remap entries.
pub open spec fn entry_views(s: Seq<RemapEntry>) -> Seq<RemapEntryView> {
    s.map_values(|e: RemapEntry| e@)
}

impl View for DeviceRecord {
    type V = DeviceRecordView;

    open spec fn view(&self) -> DeviceRecordView {
        DeviceRecordView {
            id: self.id@,
            name: self.name@,
            family: self.family,
            remap: entry_views(self.remap@),
        }
    }
}

impl View for RawField {
    type V = RawFieldView;

    open spec fn view(&self) -> RawFieldView {
        match self {
            RawField::Absent => RawFieldView::Absent,
            RawField::Text(s) => RawFieldView::Text(s@),
            RawField::Int(i) => RawFieldView::Int(*i),
            RawField::Real(s) => RawFieldView::Real(s@),
            RawField::Other => RawFieldView::Other,
        }
    }
}

impl View for RawValue {
    type V = RawValueView;

    open spec fn view(&self) -> RawValueView {
        match self {
            RawValue::Text(s) => RawValueView::Text(s@),
            RawValue::Params { event, max, min, scale, deadzone } => (
                RawValueView::Params {
                    event: event@,
                    max: max@,
                    min: min@,
                    scale: scale@,
                    deadzone: deadzone@,
                }
            ),
            RawValue::Other => RawValueView::Other,
        }
    }
}

/// The views of a sequence of raw remap entries.
pub open spec fn raw_views(s: Seq<(String, RawValue)>) -> Seq<(Seq<char>, RawValueView)> {
    s.map_values(|p: (String, RawValue)| (p.0@, p.1@))
}

/// `int_param_of`, over views.
pub open spec fn int_param_of_v(f: RawFieldView, key: Seq<char>) -> Result<
    Option<i64>,
    CompileErrorView,
> {
    match f {
        RawFieldView::Absent => Ok(None),
        RawFieldView::Int(i) => Ok(Some(i)),
        _ => Err(CompileErrorView::InvalidMapping(key)),
    }
}

/// `real_param_of`, over views.
pub open spec fn real_param_of_v(f: RawFieldView, key: Seq<char>) -> Result<
    Option<Seq<char>>,
    CompileErrorView,
> {
    match f {
        RawFieldView::Absent => Ok(None),
        RawFieldView::Real(s) => Ok(Some(s)),
        _ => Err(CompileErrorView::InvalidMapping(key)),
    }
}

/// `param_event_of`, over views.
pub open spec fn param_event_of_v(f: RawFieldView, key: Seq<char>) -> Result<
    u8,
    CompileErrorView,
> {
    match f {
        RawFieldView::Absent => Ok(0u8),
        RawFieldView::Text(name) => match code_of_name(name) {
            Some(c) => Ok(c),
            None => Err(CompileErrorView::UnknownSymbol(name)),
        },
        _ => Err(CompileErrorView::InvalidMapping(key)),
    }
}

/// `event_of`, over views.
pub open spec fn event_of_v(key: Seq<char>, v: RawValueView) -> Result<
    EventSpecView,
    CompileErrorView,
> {
    match v {
        RawValueView::Text(name) => match code_of_name(name) {
            Some(c) => Ok(EventSpecView::Simple(c)),
            None => Err(CompileErrorView::UnknownSymbol(name)),
        },
        RawValueView::Params { event, max, min, scale, deadzone } => match param_event_of_v(
            event,
            key,
        ) {
            Err(e) => Err(e),
            Ok(c) => match int_param_of_v(max, key) {
                Err(e) => Err(e),
                Ok(mx) => match int_param_of_v(min, key) {
                    Err(e) => Err(e),
                    Ok(mn) => match real_param_of_v(scale, key) {
                        Err(e) => Err(e),
                        Ok(sc) => match real_param_of_v(deadzone, key) {
                            Err(e) => Err(e),
                            Ok(dz) => Ok(
                                EventSpecView::Parameterized {
                                    event: c,
                                    max: mx,
                                    min: mn,
                                    scale: sc,
                                    deadzone: dz,
                                },
                            ),
                        },
                    },
                },
            },
        },
        RawValueView::Other => Err(CompileErrorView::InvalidMapping(key)),
    }
}

/// `entry_of`, over views.
pub open spec fn entry_of_v(key: Seq<char>, v: RawValueView) -> Result<
    RemapEntryView,
    CompileErrorView,
> {
    match key_of(key) {
        None => Err(CompileErrorView::UnknownSymbol(key)),
        Some(k) => match event_of_v(key, v) {
            Err(e) => Err(e),
            Ok(es) => Ok(RemapEntryView { key_text: key, key: k, event: es }),
        },
    }
}

/// `entries_of`, over views.
pub open spec fn entries_of_v(raw: Seq<(Seq<char>, RawValueView)>) -> Result<
    Seq<RemapEntryView>,
    CompileErrorView,
>
    decreases raw.len(),
{
    if raw.len() == 0 {
        Ok(Seq::empty())
    } else {
        match entries_of_v(raw.drop_last()) {
            Err(e) => Err(e),
            Ok(s) => match entry_of_v(raw.last().0, raw.last().1) {
                Err(e) => Err(e),
                Ok(en) => Ok(s.push(en)),
            },
        }
    }
}

/// The interpretation of one entry is the same seen through views.
pub proof fn lemma_entry_of_view(key: String, v: RawValue)
    ensures
        (match entry_of(key, v) {
            Ok(e) => Ok::<RemapEntryView, CompileErrorView>(e@),
            Err(e) => Err::<RemapEntryView, CompileErrorView>(e@),
        }) == entry_of_v(key@, v@),
{
}

/// The interpretation of an entry sequence is the same seen through
/// views.
pub proof fn lemma_entries_of_view(raw: Seq<(String, RawValue)>)
    ensures
        (match entries_of(raw) {
            Ok(s) => Ok::<Seq<RemapEntryView>, CompileErrorView>(entry_views(s)),
            Err(e) => Err::<Seq<RemapEntryView>, CompileErrorView>(e@),
        }) == entries_of_v(raw_views(raw)),
    decreases raw.len(),
{
    if raw.len() == 0 {
        assert(raw_views(raw).len() == 0);
        assert(entry_views(Seq::<RemapEntry>::empty()) =~= Seq::<RemapEntryView>::empty());
    } else {
        lemma_entries_of_view(raw.drop_last());
        lemma_entry_of_view(raw.last().0, raw.last().1);
        assert(raw_views(raw).drop_last() =~= raw_views(raw.drop_last()));
        assert(raw_views(raw).last() == (raw.last().0@, raw.last().1@));
        match entries_of(raw.drop_last()) {
            Ok(s) => match entry_of(raw.last().0, raw.last().1) {
                Ok(en) => {
                    assert(entry_views(s.push(en)) =~= entry_views(s).push(en@));
                },
                Err(_) => {},
            },
            Err(_) => {},
        }
    }
}

/// Resolves a descriptor's `type` field to a device family.
pub fn resolve_family(s: &str) -> (r: Option<Family>)
    ensures
        r == family_of(s@),
{
    if str_eq(s, "xbox") {
        Some(Family::Xbox)
    } else if str_eq(s, "playstation") {
        Some(Family::PlayStation)
    } else if str_eq(s, "nintendo") {
        Some(Family::Nintendo)
    } else if str_eq(s, "flight") {
        Some(Family::Flight)
    } else {
        None
    }
}

/// Resolves a remap key: a decimal 8-bit numeral becomes a raw numeric
/// key, anything else is looked up in the symbol table.
pub fn resolve_key(s: &str) -> (r: Option<InputKey>)
    ensures
        r == key_of(s@),
{
    match parse_u8(s) {
        Some(n) => Some(InputKey::Numeric(n)),
        None => match name_to_hex(s) {
            Some(c) => Some(InputKey::Named(c)),
            None => None,
        },
    }
}

} // verus!
