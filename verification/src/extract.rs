//! The outage-record extraction state machine: classifies each line of a
//! flattened page and assembles records from marker lines, carrying one bit
//! of lookahead state for a time value wrapped onto the following line.
use vstd::prelude::*;

use crate::text::{contains_hyphen, starts_with, str_starts_with, trim, trim_start};
use crate::{OutageRecord, RecordModel};

verus! {

/// The value a marker line carries: the line after its marker, trimmed.
pub open spec fn remainder(line: Seq<char>, p: Seq<char>) -> Seq<char> {
    trim(line.subrange(p.len() as int, line.len() as int))
}

/// The marker that begins a location line.
pub open spec fn location_prefix() -> Seq<char> {
    seq!['M', 'j', 'e', 's', 't', 'o', ':']
}

/// The marker that begins a street line.
pub open spec fn street_prefix() -> Seq<char> {
    seq!['U', 'l', 'i', 'c', 'a', ':']
}

/// The marker that begins an expected-duration line.
pub open spec fn duration_prefix() -> Seq<char> {
    seq![
        'O',
        'č',
        'e',
        'k',
        'i',
        'v',
        'a',
        'n',
        'o',
        ' ',
        't',
        'r',
        'a',
        'j',
        'a',
        'n',
        'j',
        'e',
        ':',
    ]
}

/// The marker that begins a note line.
pub open spec fn note_prefix() -> Seq<char> {
    seq!['N', 'a', 'p', 'o', 'm', 'e', 'n', 'a', ':']
}

fn location_marker() -> (r: &'static str)
    ensures
        r@ == location_prefix(),
{
    proof {
        reveal_strlit("Mjesto:");
        assert(("Mjesto:")@ =~= location_prefix());
    }
    "Mjesto:"
}

fn street_marker() -> (r: &'static str)
    ensures
        r@ == street_prefix(),
{
    proof {
        reveal_strlit("Ulica:");
        assert(("Ulica:")@ =~= street_prefix());
    }
    "Ulica:"
}

fn duration_marker() -> (r: &'static str)
    ensures
        r@ == duration_prefix(),
{
    proof {
        reveal_strlit("Očekivano trajanje:");
        assert(("Očekivano trajanje:")@ =~= duration_prefix());
    }
    "Očekivano trajanje:"
}

fn note_marker() -> (r: &'static str)
    ensures
        r@ == note_prefix(),
{
    proof {
        reveal_strlit("Napomena:");
        assert(("Napomena:")@ =~= note_prefix());
    }
    "Napomena:"
}

/// The kind of a line, decided by which marker begins it; the first match in
/// this priority order wins, and a line with no marker is `Other`.
pub enum LineKind {
    Location,
    Street,
    Duration,
    Note,
    Other,
}

/// Classification of one line by its leading marker.
pub open spec fn spec_classify(line: Seq<char>) -> LineKind {
    if starts_with(line, location_prefix()) {
        LineKind::Location
    } else if starts_with(line, street_prefix()) {
        LineKind::Street
    } else if starts_with(line, duration_prefix()) {
        LineKind::Duration
    } else if starts_with(line, note_prefix()) {
        LineKind::Note
    } else {
        LineKind::Other
    }
}

/// Classifies one line by its leading marker.
pub fn classify_line(line: &str) -> (k: LineKind)
    ensures
        k == spec_classify(line@),
{
    if str_starts_with(line, location_marker()) {
        LineKind::Location
    } else if str_starts_with(line, street_marker()) {
        LineKind::Street
    } else if str_starts_with(line, duration_marker()) {
        LineKind::Duration
    } else if str_starts_with(line, note_marker()) {
        LineKind::Note
    } else {
        LineKind::Other
    }
}

/// A record as freshly opened by a location line: only the page date and the
/// location value are set.
pub open spec fn fresh_record(date: Seq<char>, location: Seq<char>) -> RecordModel {
    RecordModel {
        date,
        location,
        street: Seq::empty(),
        time: Seq::empty(),
        note: Seq::empty(),
    }
}

/// The extractor's state while walking the line sequence: the record being
/// assembled, the lookahead bit for a wrapped time value, and the records
/// sealed so far.
#[verifier::ext_equal]
pub struct ExtractState {
    pub open_record: Option<RecordModel>,
    pub awaiting_time: bool,
    pub emitted: Seq<RecordModel>,
}

/// The state before any line has been read.
pub open spec fn initial_state() -> ExtractState {
    ExtractState { open_record: None, awaiting_time: false, emitted: Seq::empty() }
}

/// Seals the open record, if any, after the emitted ones.
pub open spec fn records_of(st: ExtractState) -> Seq<RecordModel> {
    match st.open_record {
        Some(r) => st.emitted.push(r),
        None => st.emitted,
    }
}

pub open spec fn set_street(o: Option<RecordModel>, v: Seq<char>) -> Option<RecordModel> {
    match o {
        Some(r) => Some(RecordModel { street: v, ..r }),
        None => None,
    }
}

pub open spec fn set_time(o: Option<RecordModel>, v: Seq<char>) -> Option<RecordModel> {
    match o {
        Some(r) => Some(RecordModel { time: v, ..r }),
        None => None,
    }
}

pub open spec fn set_note(o: Option<RecordModel>, v: Seq<char>) -> Option<RecordModel> {
    match o {
        Some(r) => Some(RecordModel { note: v, ..r }),
        None => None,
    }
}

/// One step of the state machine on one line. A location line seals the open
/// record and opens a fresh one; street, duration and note lines set a field
/// of the open record (last write wins); a duration marker with no inline
/// value only arms the lookahead bit; a plain non-empty line containing a
/// hyphen satisfies an armed lookahead as the time value; anything else
/// leaves the state unchanged.
///
/// The hyphen test is a deliberate heuristic kept for compatibility with the
/// source portal's loose layout: a wrapped time value without a hyphen is
/// silently dropped, and the lookahead stays armed across ignored lines, so
/// an unrelated hyphen-bearing plain line can be taken as the time.
pub open spec fn spec_step(st: ExtractState, date: Seq<char>, line: Seq<char>) -> ExtractState {
    match spec_classify(line) {
        LineKind::Location => ExtractState {
            open_record: Some(fresh_record(date, remainder(line, location_prefix()))),
            awaiting_time: false,
            emitted: match st.open_record {
                Some(r) => st.emitted.push(r),
                None => st.emitted,
            },
        },
        LineKind::Street => ExtractState {
            open_record: set_street(st.open_record, remainder(line, street_prefix())),
            awaiting_time: false,
            emitted: st.emitted,
        },
        LineKind::Duration => {
            let v = remainder(line, duration_prefix());
            if v.len() > 0 {
                ExtractState {
                    open_record: set_time(st.open_record, v),
                    awaiting_time: false,
                    emitted: st.emitted,
                }
            } else {
                ExtractState {
                    open_record: st.open_record,
                    awaiting_time: true,
                    emitted: st.emitted,
                }
            }
        },
        LineKind::Note => ExtractState {
            open_record: set_note(st.open_record, remainder(line, note_prefix())),
            awaiting_time: false,
            emitted: st.emitted,
        },
        LineKind::Other => {
            if st.awaiting_time && line.len() > 0 && line.contains('-') {
                ExtractState {
                    open_record: set_time(st.open_record, line),
                    awaiting_time: false,
                    emitted: st.emitted,
                }
            } else {
                st
            }
        },
    }
}

/// The state after reading every line of `lines` in order, starting from `st`.
pub open spec fn run_lines(st: ExtractState, date: Seq<char>, lines: Seq<Seq<char>>) -> ExtractState
    decreases lines.len(),
{
    if lines.len() == 0 {
        st
    } else {
        run_lines(spec_step(st, date, lines[0]), date, lines.drop_first())
    }
}

/// The records extracted from a page: run the machine over every line, then
/// seal the record still open at the end of the stream.
pub open spec fn spec_extract(date: Seq<char>, lines: Seq<Seq<char>>) -> Seq<RecordModel> {
    records_of(run_lines(initial_state(), date, lines))
}

proof fn lemma_run_nil(st: ExtractState, date: Seq<char>)
    ensures
        run_lines(st, date, Seq::<Seq<char>>::empty()) == st,
{
}

proof fn lemma_run_cons(st: ExtractState, date: Seq<char>, lines: Seq<Seq<char>>)
    requires
        lines.len() > 0,
    ensures
        run_lines(st, date, lines) == run_lines(
            spec_step(st, date, lines[0]),
            date,
            lines.drop_first(),
        ),
{
}

/// Running the machine over `a + b` is running it over `a`, then over `b`.
pub proof fn lemma_run_lines_app(
    st: ExtractState,
    date: Seq<char>,
    a: Seq<Seq<char>>,
    b: Seq<Seq<char>>,
)
    ensures
        run_lines(st, date, a + b) == run_lines(run_lines(st, date, a), date, b),
    decreases a.len(),
{
    if a.len() == 0 {
        assert(a + b =~= b);
    } else {
        assert((a + b)[0] == a[0]);
        assert((a + b).drop_first() =~= a.drop_first() + b);
        lemma_run_lines_app(spec_step(st, date, a[0]), date, a.drop_first(), b);
    }
}

/// Runs the extraction state machine over the lines of one page. `date` is
/// the page-level date label, copied verbatim into every record.
pub fn extract_records(date: &str, lines: &Vec<String>) -> (res: Vec<OutageRecord>)
    ensures
        res.deep_view() == spec_extract(date@, lines.deep_view()),
{
    let mut out: Vec<OutageRecord> = Vec::new();
    let mut current: Option<OutageRecord> = None;
    let mut awaiting: bool = false;
    let mut i: usize = 0;
    proof {
        assert(lines.deep_view().take(0) =~= Seq::<Seq<char>>::empty());
        assert(out.deep_view() =~= Seq::<RecordModel>::empty());
    }
    while i < lines.len()
        invariant
            0 <= i <= lines.len(),
            lines.deep_view().len() == lines.len(),
            ({
                let st = run_lines(initial_state(), date@, lines.deep_view().take(i as int));
                &&& out.deep_view() == st.emitted
                &&& current.deep_view() == st.open_record
                &&& awaiting == st.awaiting_time
            }),
        decreases lines.len() - i,
    {
        let ghost ldv = lines.deep_view();
        let ghost st0 = run_lines(initial_state(), date@, ldv.take(i as int));
        let ghost st1 = spec_step(st0, date@, ldv[i as int]);
        let line: &String = &lines[i];
        proof {
            assert(ldv[i as int] == lines@[i as int]@);
            lemma_run_lines_app(initial_state(), date@, ldv.take(i as int), seq![ldv[i as int]]);
            assert(ldv.take(i as int) + seq![ldv[i as int]] =~= ldv.take(i as int + 1));
            reveal_with_fuel(run_lines, 3);
            assert(seq![ldv[i as int]].drop_first() =~= Seq::<Seq<char>>::empty());
            assert(run_lines(initial_state(), date@, ldv.take(i as int + 1)) == st1);
        }
        let k = classify_line(line.as_str());
        match k {
            LineKind::Location => {
                let ghost dv0 = out.deep_view();
                match current {
                    Some(rec) => {
                        out.push(rec);
                        proof {
                            assert(out.deep_view() =~= dv0.push(rec@));
                        }
                    },
                    None => {},
                }
                let loc = marker_remainder(line.as_str(), location_marker());
                current = Some(
                    OutageRecord {
                        date: String::from_str(date),
                        location: loc,
                        street: String::new(),
                        time: String::new(),
                        note: String::new(),
                    },
                );
                awaiting = false;
                proof {
                    assert(current.deep_view() == st1.open_record);
                    assert(out.deep_view() == st1.emitted);
                }
            },
            LineKind::Street => {
                let v = marker_remainder(line.as_str(), street_marker());
                match current {
                    Some(mut rec) => {
                        rec.street = v;
                        current = Some(rec);
                    },
                    None => {
                        current = None;
                    },
                }
                awaiting = false;
                proof {
                    assert(current.deep_view() == st1.open_record);
                }
            },
            LineKind::Duration => {
                let v = marker_remainder(line.as_str(), duration_marker());
                if v.as_str().is_empty() {
                    awaiting = true;
                } else {
                    match current {
                        Some(mut rec) => {
                            rec.time = v;
                            current = Some(rec);
                        },
                        None => {
                            current = None;
                        },
                    }
                    awaiting = false;
                }
                proof {
                    assert(current.deep_view() == st1.open_record);
                }
            },
            LineKind::Note => {
                let v = marker_remainder(line.as_str(), note_marker());
                match current {
                    Some(mut rec) => {
                        rec.note = v;
                        current = Some(rec);
                    },
                    None => {
                        current = None;
                    },
                }
                awaiting = false;
                proof {
                    assert(current.deep_view() == st1.open_record);
                }
            },
            LineKind::Other => {
                if awaiting && !line.as_str().is_empty() && contains_hyphen(line.as_str()) {
                    match current {
                        Some(mut rec) => {
                            rec.time = line.clone();
                            current = Some(rec);
                        },
                        None => {
                            current = None;
                        },
                    }
                    awaiting = false;
                }
                proof {
                    assert(current.deep_view() == st1.open_record);
                }
            },
        }
        i = i + 1;
    }
    proof {
        assert(lines.deep_view().take(lines.len() as int) =~= lines.deep_view());
    }
    match current {
        Some(rec) => {
            let ghost dv0 = out.deep_view();
            out.push(rec);
            proof {
                assert(out.deep_view() =~= dv0.push(rec@));
            }
        },
        None => {},
    }
    out
}

/// A line made of the location marker followed by `v`.
pub open spec fn location_line(v: Seq<char>) -> Seq<char> {
    location_prefix() + v
}

/// A line made of the street marker followed by `v`.
pub open spec fn street_line(v: Seq<char>) -> Seq<char> {
    street_prefix() + v
}

/// A line made of the duration marker followed by `v`.
pub open spec fn duration_line(v: Seq<char>) -> Seq<char> {
    duration_prefix() + v
}

/// A line made of the note marker followed by `v`.
pub open spec fn note_line(v: Seq<char>) -> Seq<char> {
    note_prefix() + v
}

proof fn lemma_first_char(s: Seq<char>, p: Seq<char>)
    requires
        p.len() > 0,
        starts_with(s, p),
    ensures
        s[0] == p[0],
{
    assert(s.subrange(0, p.len() as int)[0] == s[0]);
}

/// A composed marker line is classified as its marker's kind, and carries the
/// trimmed value after the marker: the four markers begin with four distinct
/// characters, so none shadows another.
pub proof fn lemma_classify_marker_lines(v: Seq<char>)
    ensures
        spec_classify(location_line(v)) is Location,
        spec_classify(street_line(v)) is Street,
        spec_classify(duration_line(v)) is Duration,
        spec_classify(note_line(v)) is Note,
        remainder(location_line(v), location_prefix()) == trim(v),
        remainder(street_line(v), street_prefix()) == trim(v),
        remainder(duration_line(v), duration_prefix()) == trim(v),
        remainder(note_line(v), note_prefix()) == trim(v),
{
    assert(location_line(v).subrange(0, location_prefix().len() as int) =~= location_prefix());
    assert(street_line(v).subrange(0, street_prefix().len() as int) =~= street_prefix());
    assert(duration_line(v).subrange(0, duration_prefix().len() as int) =~= duration_prefix());
    assert(note_line(v).subrange(0, note_prefix().len() as int) =~= note_prefix());
    if starts_with(street_line(v), location_prefix()) {
        lemma_first_char(street_line(v), location_prefix());
    }
    if starts_with(duration_line(v), location_prefix()) {
        lemma_first_char(duration_line(v), location_prefix());
    }
    if starts_with(duration_line(v), street_prefix()) {
        lemma_first_char(duration_line(v), street_prefix());
    }
    if starts_with(note_line(v), location_prefix()) {
        lemma_first_char(note_line(v), location_prefix());
    }
    if starts_with(note_line(v), street_prefix()) {
        lemma_first_char(note_line(v), street_prefix());
    }
    if starts_with(note_line(v), duration_prefix()) {
        lemma_first_char(note_line(v), duration_prefix());
    }
    assert(location_line(v).subrange(
        location_prefix().len() as int,
        location_line(v).len() as int,
    ) =~= v);
    assert(street_line(v).subrange(street_prefix().len() as int, street_line(v).len() as int)
        =~= v);
    assert(duration_line(v).subrange(
        duration_prefix().len() as int,
        duration_line(v).len() as int,
    ) =~= v);
    assert(note_line(v).subrange(note_prefix().len() as int, note_line(v).len() as int) =~= v);
}

/// Appending a location line to any line stream appends exactly one record to
/// the extraction: a fresh record holding only the page date and the location
/// value. In particular a trailing location block with no terminating marker
/// still yields its record (end-of-stream finalization), and two consecutive
/// location lines yield two such records.
pub proof fn lemma_location_appends_record(date: Seq<char>, lines: Seq<Seq<char>>, v: Seq<char>)
    requires
        trim(v) == v,
    ensures
        spec_extract(date, lines.push(location_line(v))) == spec_extract(date, lines).push(
            fresh_record(date, v),
        ),
{
    let st = run_lines(initial_state(), date, lines);
    lemma_run_lines_app(initial_state(), date, lines, seq![location_line(v)]);
    assert(lines + seq![location_line(v)] =~= lines.push(location_line(v)));
    lemma_classify_marker_lines(v);
    reveal_with_fuel(run_lines, 3);
    assert(seq![location_line(v)].drop_first() =~= Seq::<Seq<char>>::empty());
    let st1 = spec_step(st, date, location_line(v));
    assert(run_lines(st, date, seq![location_line(v)]) == st1);
    assert(st1.emitted == records_of(st));
    assert(records_of(st1) =~= records_of(st).push(fresh_record(date, v)));
}

/// The lines of one complete location block: location, street, duration with
/// an inline value, and note.
pub open spec fn block_lines(
    l: Seq<char>,
    s: Seq<char>,
    t: Seq<char>,
    n: Seq<char>,
) -> Seq<Seq<char>> {
    seq![location_line(l), street_line(s), duration_line(t), note_line(n)]
}

/// Reading one complete location block from any state seals whatever record
/// was open and leaves open a record holding exactly the block's four values.
#[verifier::rlimit(50)]
pub proof fn lemma_block_assembles(
    st: ExtractState,
    date: Seq<char>,
    l: Seq<char>,
    s: Seq<char>,
    t: Seq<char>,
    n: Seq<char>,
)
    requires
        trim(l) == l,
        trim(s) == s,
        trim(t) == t,
        trim(n) == n,
        t.len() > 0,
    ensures
        run_lines(st, date, block_lines(l, s, t, n)) == (ExtractState {
            open_record: Some(RecordModel { date, location: l, street: s, time: t, note: n }),
            awaiting_time: false,
            emitted: records_of(st),
        }),
{
    lemma_classify_marker_lines(l);
    lemma_classify_marker_lines(s);
    lemma_classify_marker_lines(t);
    lemma_classify_marker_lines(n);
    let ls = block_lines(l, s, t, n);
    let st1 = spec_step(st, date, location_line(l));
    let st2 = spec_step(st1, date, street_line(s));
    let st3 = spec_step(st2, date, duration_line(t));
    let st4 = spec_step(st3, date, note_line(n));
    lemma_run_cons(st, date, ls);
    assert(ls.drop_first() =~= seq![street_line(s), duration_line(t), note_line(n)]);
    lemma_run_cons(st1, date, seq![street_line(s), duration_line(t), note_line(n)]);
    assert(seq![street_line(s), duration_line(t), note_line(n)].drop_first() =~= seq![
        duration_line(t),
        note_line(n),
    ]);
    lemma_run_cons(st2, date, seq![duration_line(t), note_line(n)]);
    assert(seq![duration_line(t), note_line(n)].drop_first() =~= seq![note_line(n)]);
    lemma_run_cons(st3, date, seq![note_line(n)]);
    assert(seq![note_line(n)].drop_first() =~= Seq::<Seq<char>>::empty());
    lemma_run_nil(st4, date);
    assert(run_lines(st, date, ls) == st4);
    assert(st4 =~= ExtractState {
        open_record: Some(RecordModel { date, location: l, street: s, time: t, note: n }),
        awaiting_time: false,
        emitted: records_of(st),
    });
}

/// Round trip: extracting from two composed complete location blocks yields
/// exactly two records carrying the composed field values.
pub proof fn lemma_two_blocks_round_trip(
    date: Seq<char>,
    l1: Seq<char>,
    s1: Seq<char>,
    t1: Seq<char>,
    n1: Seq<char>,
    l2: Seq<char>,
    s2: Seq<char>,
    t2: Seq<char>,
    n2: Seq<char>,
)
    requires
        trim(l1) == l1,
        trim(s1) == s1,
        trim(t1) == t1,
        trim(n1) == n1,
        trim(l2) == l2,
        trim(s2) == s2,
        trim(t2) == t2,
        trim(n2) == n2,
        t1.len() > 0,
        t2.len() > 0,
    ensures
        spec_extract(date, block_lines(l1, s1, t1, n1) + block_lines(l2, s2, t2, n2)) == seq![
            RecordModel { date, location: l1, street: s1, time: t1, note: n1 },
            RecordModel { date, location: l2, street: s2, time: t2, note: n2 },
        ],
{
    let r1 = RecordModel { date, location: l1, street: s1, time: t1, note: n1 };
    let r2 = RecordModel { date, location: l2, street: s2, time: t2, note: n2 };
    lemma_run_lines_app(
        initial_state(),
        date,
        block_lines(l1, s1, t1, n1),
        block_lines(l2, s2, t2, n2),
    );
    lemma_block_assembles(initial_state(), date, l1, s1, t1, n1);
    let st_a = run_lines(initial_state(), date, block_lines(l1, s1, t1, n1));
    lemma_block_assembles(st_a, date, l2, s2, t2, n2);
    assert(records_of(initial_state()) =~= Seq::<RecordModel>::empty());
    assert(records_of(st_a) =~= seq![r1]);
    let st_b = run_lines(st_a, date, block_lines(l2, s2, t2, n2));
    assert(records_of(st_b) =~= seq![r1, r2]);
}

/// A duration marker with an empty inline value only arms the lookahead bit.
/// The next plain (unmarked) line then sets the open record's time verbatim
/// when it is non-empty and contains a hyphen; otherwise it changes nothing —
/// in particular it is not consumed for any other field, and the time stays
/// empty until some later line sets it.
pub proof fn lemma_duration_continuation(
    st: ExtractState,
    date: Seq<char>,
    r: RecordModel,
    t: Seq<char>,
)
    requires
        st.open_record == Some(r),
        spec_classify(t) is Other,
    ensures
        ({
            let st1 = spec_step(st, date, duration_line(Seq::empty()));
            &&& st1 == (ExtractState { awaiting_time: true, ..st })
            &&& (t.len() > 0 && t.contains('-') ==> spec_step(st1, date, t) == (ExtractState {
                open_record: Some(RecordModel { time: t, ..r }),
                awaiting_time: false,
                emitted: st.emitted,
            }))
            &&& (!(t.len() > 0 && t.contains('-')) ==> spec_step(st1, date, t) == st1)
        }),
{
    lemma_classify_marker_lines(Seq::<char>::empty());
    assert(trim_start(Seq::<char>::empty()) == Seq::<char>::empty());
    assert(trim(Seq::<char>::empty()) == Seq::<char>::empty());
    let st1 = spec_step(st, date, duration_line(Seq::empty()));
    assert(st1 =~= ExtractState { awaiting_time: true, ..st });
}

/// Two consecutive location lines with nothing in between yield two records,
/// each holding only the page date and its location value.
pub proof fn lemma_consecutive_locations(date: Seq<char>, v1: Seq<char>, v2: Seq<char>)
    requires
        trim(v1) == v1,
        trim(v2) == v2,
    ensures
        spec_extract(date, seq![location_line(v1), location_line(v2)]) == seq![
            fresh_record(date, v1),
            fresh_record(date, v2),
        ],
{
    lemma_no_markers_no_records(date, Seq::<Seq<char>>::empty());
    lemma_location_appends_record(date, Seq::<Seq<char>>::empty(), v1);
    assert(Seq::<Seq<char>>::empty().push(location_line(v1)) =~= seq![location_line(v1)]);
    lemma_location_appends_record(date, seq![location_line(v1)], v2);
    assert(seq![location_line(v1)].push(location_line(v2)) =~= seq![
        location_line(v1),
        location_line(v2),
    ]);
    assert(Seq::<RecordModel>::empty().push(fresh_record(date, v1)).push(fresh_record(date, v2))
        =~= seq![fresh_record(date, v1), fresh_record(date, v2)]);
}

/// A page with no marker lines at all — in particular an empty line
/// sequence — yields no records.
pub proof fn lemma_no_markers_no_records(date: Seq<char>, lines: Seq<Seq<char>>)
    requires
        forall|j: int| 0 <= j < lines.len() ==> spec_classify(#[trigger] lines[j]) is Other,
    ensures
        spec_extract(date, lines) == Seq::<RecordModel>::empty(),
{
    lemma_no_markers_runs_inert(date, lines);
}

proof fn lemma_no_markers_runs_inert(date: Seq<char>, lines: Seq<Seq<char>>)
    requires
        forall|j: int| 0 <= j < lines.len() ==> spec_classify(#[trigger] lines[j]) is Other,
    ensures
        run_lines(initial_state(), date, lines) == initial_state(),
    decreases lines.len(),
{
    if lines.len() > 0 {
        assert(spec_classify(lines[0]) is Other);
        assert(spec_step(initial_state(), date, lines[0]) == initial_state());
        assert(forall|j: int|
            0 <= j < lines.drop_first().len() ==> spec_classify(
                #[trigger] lines.drop_first()[j],
            ) is Other);
        lemma_no_markers_runs_inert(date, lines.drop_first());
    }
}

/// The value carried by a marker line: what follows the marker, trimmed.
fn marker_remainder(line: &str, marker: &str) -> (r: String)
    requires
        starts_with(line@, marker@),
    ensures
        r@ == remainder(line@, marker@),
{
    let ml = marker.unicode_len();
    let rest = line.substring_char(ml, line.unicode_len());
    crate::text::trim_str(rest)
}

} // verus!
