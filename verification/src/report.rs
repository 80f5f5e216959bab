//! Composition of the human-readable outputs: the fetch URL for one date, the
//! notification message, and the console report. All composition is verified
//! character by character; delivery and printing happen outside the library.
use vstd::prelude::*;

use crate::{OutageRecord, RecordModel};

verus! {

/// The portal URL that lists the outages of one date for one region/office.
pub open spec fn spec_outage_url(date: Seq<char>, city: Seq<char>, office: Seq<char>) -> Seq<
    char,
> {
    ("https://www.hep.hr/ods/bez-struje/19?dp=")@ + city + ("&el=")@ + office + ("&datum=")@ + date
}

/// Builds the portal URL for one date and one region/office pair.
pub fn outage_url(date: &str, city: &str, office: &str) -> (r: String)
    ensures
        r@ == spec_outage_url(date@, city@, office@),
{
    let mut out = String::from_str("https://www.hep.hr/ods/bez-struje/19?dp=");
    out.append(city);
    out.append("&el=");
    out.append(office);
    out.append("&datum=");
    out.append(date);
    proof {
        assert(out@ =~= spec_outage_url(date@, city@, office@));
    }
    out
}

/// The character for one decimal digit.
pub open spec fn digit_char(d: nat) -> char {
    if d == 0 {
        '0'
    } else if d == 1 {
        '1'
    } else if d == 2 {
        '2'
    } else if d == 3 {
        '3'
    } else if d == 4 {
        '4'
    } else if d == 5 {
        '5'
    } else if d == 6 {
        '6'
    } else if d == 7 {
        '7'
    } else if d == 8 {
        '8'
    } else {
        '9'
    }
}

/// The decimal rendering of `n`, most significant digit first, no leading
/// zeros (a single zero for 0).
pub open spec fn spec_decimal(n: nat) -> Seq<char>
    decreases n,
{
    if n < 10 {
        seq![digit_char(n)]
    } else {
        spec_decimal(n / 10).push(digit_char(n % 10))
    }
}

fn digit_str(d: u64) -> (r: &'static str)
    requires
        d < 10,
    ensures
        r@ == seq![digit_char(d as nat)],
{
    proof {
        reveal_strlit("0");
        reveal_strlit("1");
        reveal_strlit("2");
        reveal_strlit("3");
        reveal_strlit("4");
        reveal_strlit("5");
        reveal_strlit("6");
        reveal_strlit("7");
        reveal_strlit("8");
        reveal_strlit("9");
        assert(("0")@ =~= seq![digit_char(0 as nat)]);
        assert(("1")@ =~= seq![digit_char(1 as nat)]);
        assert(("2")@ =~= seq![digit_char(2 as nat)]);
        assert(("3")@ =~= seq![digit_char(3 as nat)]);
        assert(("4")@ =~= seq![digit_char(4 as nat)]);
        assert(("5")@ =~= seq![digit_char(5 as nat)]);
        assert(("6")@ =~= seq![digit_char(6 as nat)]);
        assert(("7")@ =~= seq![digit_char(7 as nat)]);
        assert(("8")@ =~= seq![digit_char(8 as nat)]);
        assert(("9")@ =~= seq![digit_char(9 as nat)]);
    }
    if d == 0 {
        "0"
    } else if d == 1 {
        "1"
    } else if d == 2 {
        "2"
    } else if d == 3 {
        "3"
    } else if d == 4 {
        "4"
    } else if d == 5 {
        "5"
    } else if d == 6 {
        "6"
    } else if d == 7 {
        "7"
    } else if d == 8 {
        "8"
    } else {
        "9"
    }
}

/// Appends the decimal rendering of `n`.
pub fn push_decimal(s: &mut String, n: u64)
    ensures
        final(s)@ == old(s)@ + spec_decimal(n as nat),
    decreases n,
{
    if n >= 10 {
        push_decimal(s, n / 10);
        s.append(digit_str(n % 10));
        proof {
            assert((n / 10) as nat == (n as nat) / 10);
            assert((n % 10) as nat == (n as nat) % 10);
            assert(s@ =~= old(s)@ + spec_decimal(n as nat));
        }
    } else {
        s.append(digit_str(n));
        proof {
            assert(s@ =~= old(s)@ + spec_decimal(n as nat));
        }
    }
}

/// The note line of a notification section: present only when the record has
/// a note.
pub open spec fn spec_note_line(note: Seq<char>) -> Seq<char> {
    if note.len() > 0 {
        ("📝 Note: ")@ + note + ("\n")@
    } else {
        Seq::empty()
    }
}

/// One notification section: the fields of one record under its number.
pub open spec fn spec_section(r: RecordModel, idx: nat) -> Seq<char> {
    ("━━━ OUTAGE ")@ + spec_decimal(idx) + (" ━━━\n📅 Date: ")@ + r.date + ("\n📍 Location: ")@
        + r.location + ("\n🛣️  Street: ")@ + r.street + ("\n⏰ Time: ")@ + r.time + ("\n")@
        + spec_note_line(r.note) + ("\n")@
}

/// The notification sections of all records in order, numbered from 1.
pub open spec fn spec_sections(rs: Seq<RecordModel>) -> Seq<char>
    decreases rs.len(),
{
    if rs.len() == 0 {
        Seq::empty()
    } else {
        spec_sections(rs.drop_last()) + spec_section(rs.last(), rs.len() as nat)
    }
}

fn push_section(out: &mut String, r: &OutageRecord, idx: u64)
    ensures
        final(out)@ == old(out)@ + spec_section(r@, idx as nat),
{
    out.append("━━━ OUTAGE ");
    push_decimal(out, idx);
    out.append(" ━━━\n📅 Date: ");
    out.append(r.date.as_str());
    out.append("\n📍 Location: ");
    out.append(r.location.as_str());
    out.append("\n🛣️  Street: ");
    out.append(r.street.as_str());
    out.append("\n⏰ Time: ");
    out.append(r.time.as_str());
    out.append("\n");
    if !r.note.as_str().is_empty() {
        out.append("📝 Note: ");
        out.append(r.note.as_str());
        out.append("\n");
    }
    out.append("\n");
    proof {
        assert(out@ =~= old(out)@ + spec_section(r@, idx as nat));
    }
}

/// The whole notification message for the given records.
pub open spec fn spec_email_body(
    rs: Seq<RecordModel>,
    city: Seq<char>,
    office: Seq<char>,
) -> Seq<char> {
    ("⚡ PLANNED POWER OUTAGES IN YOUR AREA ⚡\n\nFound ")@ + spec_decimal(rs.len() as nat) + (
    " scheduled outage(s):\n\n")@ + spec_sections(rs) + (
    "\n---\nThis is an automated notification from HEP Outage Checker\nSource: https://www.hep.hr/ods/bez-struje/19?dp=")@
        + city + ("&el=")@ + office + ("\n")@
}

/// Composes the notification message: a header with the record count, one
/// numbered section per record listing date, location, street, time and the
/// note if present, and a footer naming the source page.
pub fn email_body(outages: &Vec<OutageRecord>, city: &str, office: &str) -> (r: String)
    ensures
        r@ == spec_email_body(outages.deep_view(), city@, office@),
{
    let mut out = String::from_str("⚡ PLANNED POWER OUTAGES IN YOUR AREA ⚡\n\nFound ");
    push_decimal(&mut out, outages.len() as u64);
    out.append(" scheduled outage(s):\n\n");
    let ghost header = out@;
    let mut i: usize = 0;
    proof {
        assert(outages.deep_view().take(0) =~= Seq::<RecordModel>::empty());
        assert(out@ =~= header + spec_sections(outages.deep_view().take(0)));
    }
    while i < outages.len()
        invariant
            0 <= i <= outages.len(),
            outages.deep_view().len() == outages.len(),
            out@ == header + spec_sections(outages.deep_view().take(i as int)),
        decreases outages.len() - i,
    {
        let ghost dv = outages.deep_view();
        push_section(&mut out, &outages[i], (i as u64) + 1);
        proof {
            assert(dv[i as int] == outages@[i as int]@);
            assert(dv.take(i as int + 1).drop_last() =~= dv.take(i as int));
            assert(dv.take(i as int + 1).last() == dv[i as int]);
            assert(out@ =~= header + spec_sections(dv.take(i as int + 1)));
        }
        i = i + 1;
    }
    proof {
        assert(outages.deep_view().take(outages.len() as int) =~= outages.deep_view());
    }
    out.append(
        "\n---\nThis is an automated notification from HEP Outage Checker\nSource: https://www.hep.hr/ods/bez-struje/19?dp=",
    );
    out.append(city);
    out.append("&el=");
    out.append(office);
    out.append("\n");
    proof {
        assert(out@ =~= spec_email_body(outages.deep_view(), city@, office@));
    }
    out
}

/// The notification subject: the filter string is named when one is set.
pub open spec fn spec_subject(filter: Option<Seq<char>>) -> Seq<char> {
    match filter {
        Some(f) => ("⚡ Power Outage Alert - ")@ + f,
        None => ("⚡ Power Outage Alert")@,
    }
}

/// Composes the notification subject.
pub fn email_subject(filter: &Option<String>) -> (r: String)
    ensures
        r@ == spec_subject(filter.deep_view()),
{
    match filter {
        Some(f) => {
            let mut out = String::from_str("⚡ Power Outage Alert - ");
            out.append(f.as_str());
            proof {
                assert(out@ =~= spec_subject(filter.deep_view()));
            }
            out
        },
        None => String::from_str("⚡ Power Outage Alert"),
    }
}

/// The note line of a console section: present only when the record has a
/// note.
pub open spec fn spec_console_note_line(note: Seq<char>) -> Seq<char> {
    if note.len() > 0 {
        ("📝 Note:     ")@ + note + ("\n")@
    } else {
        Seq::empty()
    }
}

/// One console section: the fields of one record under its number, aligned.
pub open spec fn spec_console_section(r: RecordModel, idx: nat) -> Seq<char> {
    ("━━━━━━━━━━━━━━━━━ OUTAGE ")@ + spec_decimal(idx) + (
    " ━━━━━━━━━━━━━━━━━\n📅 Date:     ")@ + r.date + ("\n📍 Location: ")@ + r.location + (
    "\n🛣️  Street:   ")@ + r.street + ("\n⏰ Time:     ")@ + r.time + ("\n")@
        + spec_console_note_line(r.note) + ("\n")@
}

/// The console sections of all records in order, numbered from 1.
pub open spec fn spec_console_sections(rs: Seq<RecordModel>) -> Seq<char>
    decreases rs.len(),
{
    if rs.len() == 0 {
        Seq::empty()
    } else {
        spec_console_sections(rs.drop_last()) + spec_console_section(rs.last(), rs.len() as nat)
    }
}

fn push_console_section(out: &mut String, r: &OutageRecord, idx: u64)
    ensures
        final(out)@ == old(out)@ + spec_console_section(r@, idx as nat),
{
    out.append("━━━━━━━━━━━━━━━━━ OUTAGE ");
    push_decimal(out, idx);
    out.append(" ━━━━━━━━━━━━━━━━━\n📅 Date:     ");
    out.append(r.date.as_str());
    out.append("\n📍 Location: ");
    out.append(r.location.as_str());
    out.append("\n🛣️  Street:   ");
    out.append(r.street.as_str());
    out.append("\n⏰ Time:     ");
    out.append(r.time.as_str());
    out.append("\n");
    if !r.note.as_str().is_empty() {
        out.append("📝 Note:     ");
        out.append(r.note.as_str());
        out.append("\n");
    }
    out.append("\n");
    proof {
        assert(out@ =~= old(out)@ + spec_console_section(r@, idx as nat));
    }
}

/// The whole console report for the given records: a banner, then either an
/// explicit none-found message or the numbered sections with a footer naming
/// the source page.
pub open spec fn spec_console_report(
    rs: Seq<RecordModel>,
    city: Seq<char>,
    office: Seq<char>,
) -> Seq<char> {
    ("\n╔════════════════════════════════════════════════════════════════╗\n║        ⚡ DRY RUN - POWER OUTAGE DATA (NO EMAIL SENT) ⚡        ║\n╚════════════════════════════════════════════════════════════════╝\n\n")@
        + if rs.len() == 0 {
        ("✅ No outages found in the next 7 days.\n\n")@
    } else {
        ("Found ")@ + spec_decimal(rs.len() as nat) + (" scheduled outage(s):\n\n")@
            + spec_console_sections(rs) + (
        "━━━━━━━━━━━━━━━━━━━━━━━━━━━━━━━━━━━━━━━━━━━━━━\nSource: https://www.hep.hr/ods/bez-struje/19?dp=")@
            + city + ("&el=")@ + office + (
        "\n━━━━━━━━━━━━━━━━━━━━━━━━━━━━━━━━━━━━━━━━━━━━━━\n\n")@
    }
}

/// Composes the console report, an explicit none-found message when there are
/// no records.
pub fn console_report(outages: &Vec<OutageRecord>, city: &str, office: &str) -> (r: String)
    ensures
        r@ == spec_console_report(outages.deep_view(), city@, office@),
{
    let mut out = String::from_str(
        "\n╔════════════════════════════════════════════════════════════════╗\n║        ⚡ DRY RUN - POWER OUTAGE DATA (NO EMAIL SENT) ⚡        ║\n╚════════════════════════════════════════════════════════════════╝\n\n",
    );
    if outages.len() == 0 {
        out.append("✅ No outages found in the next 7 days.\n\n");
        proof {
            assert(out@ =~= spec_console_report(outages.deep_view(), city@, office@));
        }
        return out;
    }
    out.append("Found ");
    push_decimal(&mut out, outages.len() as u64);
    out.append(" scheduled outage(s):\n\n");
    let ghost header = out@;
    let mut i: usize = 0;
    proof {
        assert(outages.deep_view().take(0) =~= Seq::<RecordModel>::empty());
        assert(out@ =~= header + spec_console_sections(outages.deep_view().take(0)));
    }
    while i < outages.len()
        invariant
            0 <= i <= outages.len(),
            outages.deep_view().len() == outages.len(),
            out@ == header + spec_console_sections(outages.deep_view().take(i as int)),
        decreases outages.len() - i,
    {
        let ghost dv = outages.deep_view();
        push_console_section(&mut out, &outages[i], (i as u64) + 1);
        proof {
            assert(dv[i as int] == outages@[i as int]@);
            assert(dv.take(i as int + 1).drop_last() =~= dv.take(i as int));
            assert(dv.take(i as int + 1).last() == dv[i as int]);
            assert(out@ =~= header + spec_console_sections(dv.take(i as int + 1)));
        }
        i = i + 1;
    }
    proof {
        assert(outages.deep_view().take(outages.len() as int) =~= outages.deep_view());
    }
    out.append(
        "━━━━━━━━━━━━━━━━━━━━━━━━━━━━━━━━━━━━━━━━━━━━━━\nSource: https://www.hep.hr/ods/bez-struje/19?dp=",
    );
    out.append(city);
    out.append("&el=");
    out.append(office);
    out.append("\n━━━━━━━━━━━━━━━━━━━━━━━━━━━━━━━━━━━━━━━━━━━━━━\n\n");
    proof {
        assert(out@ =~= spec_console_report(outages.deep_view(), city@, office@));
    }
    out
}

} // verus!
