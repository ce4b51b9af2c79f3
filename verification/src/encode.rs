//! The encoder: one device record serialized to one line of the
//! database, exactly as the runtime consumer parses it back.

use vstd::prelude::*;
use vstd::string::*;
use crate::model::DeviceRecord;
use crate::model::DeviceRecordView;
use crate::model::EventSpec;
use crate::model::EventSpecView;
use crate::model::Family;
use crate::model::RemapEntry;
use crate::model::RemapEntryView;
use crate::model::entry_views;
use crate::model::family_char;
use crate::model::key_byte;
use crate::model::InputKey;
use crate::numtext::dec_i64_spec;
use crate::numtext::push_dec_i64;
use crate::sort::entry_key_fn;
use crate::sort::entry_key_v_fn;
use crate::sort::sort_by;
use crate::sort::sort_remap;

verus! {

/// The uppercase hexadecimal digit of a value below 16.
pub open spec fn hex_digit_char(d: int) -> char {
    if d < 10 {
        ((d + 48) as u8) as char
    } else {
        ((d + 55) as u8) as char
    }
}

/// A byte as two uppercase hexadecimal digits.
pub open spec fn hex2(b: u8) -> Seq<char> {
    seq![hex_digit_char(b as int / 16), hex_digit_char(b as int % 16)]
}

/// An optional integer parameter: nothing when absent, else its tag
/// letter followed by the decimal value.
pub open spec fn opt_int_text(tag: char, v: Option<i64>) -> Seq<char> {
    match v {
        None => Seq::empty(),
        Some(i) => seq![tag] + dec_i64_spec(i as int),
    }
}

/// An optional real parameter: nothing when absent, else its tag letter
/// followed by the value's decimal text.
pub open spec fn opt_real_text(tag: char, v: Option<String>) -> Seq<char> {
    match v {
        None => Seq::empty(),
        Some(s) => seq![tag] + s@,
    }
}

/// An event spec: the event code, then the present parameters in the
/// fixed order max, min, scale, deadzone.
pub open spec fn encode_event(e: EventSpec) -> Seq<char> {
    match e {
        EventSpec::Simple(c) => hex2(c),
        EventSpec::Parameterized { event, max, min, scale, deadzone } => hex2(event)
            + opt_int_text('a', max) + opt_int_text('i', min) + opt_real_text('s', scale)
            + opt_real_text('d', deadzone),
    }
}

/// One remap entry: the key byte, then the event spec.
pub open spec fn encode_entry(e: RemapEntry) -> Seq<char> {
    hex2(key_byte(e.key)) + encode_event(e.event)
}

/// Entries joined by `;`: the separator stands between entries, never
/// after the last one.
pub open spec fn encode_entry_list(s: Seq<RemapEntry>) -> Seq<char>
    decreases s.len(),
{
    if s.len() == 0 {
        Seq::empty()
    } else if s.len() == 1 {
        encode_entry(s[0])
    } else {
        encode_entry_list(s.drop_last()) + seq![';'] + encode_entry(s.last())
    }
}

/// One record: the 16-character identifier, the display name, a tab, the
/// family tag, then the remap entries in their sorted order.
pub open spec fn encode_record_spec(r: DeviceRecord) -> Seq<char> {
    r.id@ + r.name@ + seq!['\t'] + seq![family_char(r.family)] + encode_entry_list(
        sort_by(r.remap@, entry_key_fn()),
    )
}

/// An optional real parameter, over views.
pub open spec fn opt_real_text_v(tag: char, v: Option<Seq<char>>) -> Seq<char> {
    match v {
        None => Seq::empty(),
        Some(s) => seq![tag] + s,
    }
}

/// `encode_event`, over views.
pub open spec fn encode_event_v(e: EventSpecView) -> Seq<char> {
    match e {
        EventSpecView::Simple(c) => hex2(c),
        EventSpecView::Parameterized { event, max, min, scale, deadzone } => hex2(event)
            + opt_int_text('a', max) + opt_int_text('i', min) + opt_real_text_v('s', scale)
            + opt_real_text_v('d', deadzone),
    }
}

/// `encode_entry`, over views.
pub open spec fn encode_entry_v(e: RemapEntryView) -> Seq<char> {
    hex2(key_byte(e.key)) + encode_event_v(e.event)
}

/// `encode_entry_list`, over views.
pub open spec fn encode_entry_list_v(s: Seq<RemapEntryView>) -> Seq<char>
    decreases s.len(),
{
    if s.len() == 0 {
        Seq::empty()
    } else if s.len() == 1 {
        encode_entry_v(s[0])
    } else {
        encode_entry_list_v(s.drop_last()) + seq![';'] + encode_entry_v(s.last())
    }
}

/// `encode_record_spec`, over views: one record's line as a function of
/// its mathematical content alone.
pub open spec fn encode_record_v(r: DeviceRecordView) -> Seq<char> {
    r.id + r.name + seq!['\t'] + seq![family_char(r.family)] + encode_entry_list_v(
        sort_by(r.remap, entry_key_v_fn()),
    )
}

/// A joined entry list is the same seen through views.
proof fn lemma_encode_entry_list_view(s: Seq<RemapEntry>)
    ensures
        encode_entry_list(s) == encode_entry_list_v(entry_views(s)),
    decreases s.len(),
{
    let sv = entry_views(s);
    if s.len() == 0 {
    } else if s.len() == 1 {
        assert(sv[0] == s[0]@);
    } else {
        lemma_encode_entry_list_view(s.drop_last());
        assert(sv.drop_last() =~= entry_views(s.drop_last()));
        assert(sv.last() == s.last()@);
    }
}

/// A record's line is the same seen through its view.
pub proof fn lemma_encode_record_view(r: DeviceRecord)
    ensures
        encode_record_spec(r) == encode_record_v(r@),
{
    crate::sort::lemma_sort_by_view(r.remap@);
    lemma_encode_entry_list_view(sort_by(r.remap@, entry_key_fn()));
}

/// The one-character string of an uppercase hexadecimal digit.
fn hex_digit_str(d: u8) -> (r: &'static str)
    requires
        d < 16,
    ensures
        r@ =~= seq![hex_digit_char(d as int)],
{
    proof {
        reveal_strlit("0");
        reveal_strlit("1");
        reveal_strlit("2");
        reveal_strlit("3");
        reveal_strlit("4");
        reveal_strlit("5");
        reveal_strlit("6");
        reveal_strlit("7");
        reveal_strlit("8");
        reveal_strlit("9");
        reveal_strlit("A");
        reveal_strlit("B");
        reveal_strlit("C");
        reveal_strlit("D");
        reveal_strlit("E");
        reveal_strlit("F");
    }
    match d {
        0 => "0",
        1 => "1",
        2 => "2",
        3 => "3",
        4 => "4",
        5 => "5",
        6 => "6",
        7 => "7",
        8 => "8",
        9 => "9",
        10 => "A",
        11 => "B",
        12 => "C",
        13 => "D",
        14 => "E",
        _ => "F",
    }
}

/// The one-character tag string of a family.
fn family_str(f: Family) -> (r: &'static str)
    ensures
        r@ =~= seq![family_char(f)],
{
    proof {
        reveal_strlit("x");
        reveal_strlit("p");
        reveal_strlit("n");
        reveal_strlit("f");
    }
    match f {
        Family::Xbox => "x",
        Family::PlayStation => "p",
        Family::Nintendo => "n",
        Family::Flight => "f",
    }
}

/// Appends a byte as two uppercase hexadecimal digits.
fn push_hex2(out: &mut String, b: u8)
    ensures
        final(out)@ == old(out)@ + hex2(b),
{
    let hi = b / 16;
    let lo = b % 16;
    out.append(hex_digit_str(hi));
    out.append(hex_digit_str(lo));
    proof {
        assert(final(out)@ =~= old(out)@ + hex2(b));
    }
}

/// The byte a key is encoded as.
fn key_byte_exec(k: &InputKey) -> (r: u8)
    ensures
        r == key_byte(*k),
{
    match k {
        InputKey::Named(c) => *c,
        InputKey::Numeric(n) => *n | 0x80,
    }
}

/// Appends the encoding of an event spec.
fn push_event(out: &mut String, e: &EventSpec)
    ensures
        final(out)@ == old(out)@ + encode_event(*e),
{
    match e {
        EventSpec::Simple(c) => {
            push_hex2(out, *c);
        },
        EventSpec::Parameterized { event, max, min, scale, deadzone } => {
            proof {
                reveal_strlit("a");
                reveal_strlit("i");
                reveal_strlit("s");
                reveal_strlit("d");
            }
            push_hex2(out, *event);
            if let Some(m) = max {
                out.append("a");
                push_dec_i64(out, *m);
            }
            proof {
                assert(out@ =~= old(out)@ + hex2(*event) + opt_int_text('a', *max));
            }
            if let Some(m) = min {
                out.append("i");
                push_dec_i64(out, *m);
            }
            proof {
                assert(out@ =~= old(out)@ + hex2(*event) + opt_int_text('a', *max)
                    + opt_int_text('i', *min));
            }
            if let Some(s) = scale {
                out.append("s");
                out.append(s.as_str());
            }
            proof {
                assert(out@ =~= old(out)@ + hex2(*event) + opt_int_text('a', *max)
                    + opt_int_text('i', *min) + opt_real_text('s', *scale));
            }
            if let Some(s) = deadzone {
                out.append("d");
                out.append(s.as_str());
            }
            proof {
                assert(out@ =~= old(out)@ + encode_event(*e));
            }
        },
    }
}

/// Appends the encoding of one remap entry.
fn push_entry(out: &mut String, e: &RemapEntry)
    ensures
        final(out)@ == old(out)@ + encode_entry(*e),
{
    let kb = key_byte_exec(&e.key);
    push_hex2(out, kb);
    push_event(out, &e.event);
    proof {
        assert(final(out)@ =~= old(out)@ + encode_entry(*e));
    }
}

/// Serializes one device record to its database line: identifier, name,
/// tab, family tag, then the remap entries sorted by case-insensitive
/// key, joined by `;` with no trailing separator.
pub fn encode(record: DeviceRecord) -> (r: String)
    ensures
        r@ == encode_record_spec(record),
{
    proof {
        reveal_strlit("\t");
        reveal_strlit(";");
    }
    let DeviceRecord { id, name, family, remap } = record;
    let mut out = String::new();
    out.append(id.as_str());
    out.append(name.as_str());
    out.append("\t");
    out.append(family_str(family));
    let ghost head = record.id@ + record.name@ + seq!['\t'] + seq![family_char(record.family)];
    proof {
        assert(out@ =~= head);
    }
    let sorted = sort_remap(remap);
    let ghost entries = sort_by(record.remap@, entry_key_fn());
    let mut i: usize = 0;
    while i < sorted.len()
        invariant
            sorted@ == entries,
            i <= sorted@.len(),
            out@ == head + encode_entry_list(entries.take(i as int)),
        decreases sorted@.len() - i,
    {
        proof {
            reveal_strlit(";");
        }
        if i > 0 {
            out.append(";");
        }
        push_entry(&mut out, &sorted[i]);
        proof {
            assert(entries.take(i + 1).drop_last() =~= entries.take(i as int));
            assert(entries.take(i + 1).last() == entries[i as int]);
            if i == 0 {
                assert(entries.take(1)[0] == entries[0]);
                assert(out@ =~= head + encode_entry_list(entries.take(1)));
            } else {
                assert(out@ =~= head + encode_entry_list(entries.take(i + 1)));
            }
        }
        i += 1;
    }
    proof {
        assert(entries.take(entries.len() as int) =~= entries);
        assert(out@ =~= encode_record_spec(record));
    }
    out
}

} // verus!
