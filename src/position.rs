//! The position fix, its decoding from NMEA sentences, and the store that
//! keeps the latest known value of each field.
use vstd::prelude::*;
use crate::text::{all_ws, clean_line, lemma_trimmed_within, trimmed};

verus! {

#[verifier::external_type_specification]
#[verifier::external_body]
pub struct ExNmea(nmea::Nmea);

/// The position that an NMEA decoder holds: latitude, longitude and
/// altitude, each rendered as text, or `None` where it holds no value.
pub uninterp spec fn nmea_position(decoder: nmea::Nmea) -> (
    Option<Seq<char>>,
    Option<Seq<char>>,
    Option<Seq<char>>,
);

/// What decoding one NMEA sentence writes to each position field: `None`
/// where the sentence leaves the field alone, `Some(v)` where it sets the
/// field to `v` (itself `None` where the sentence carries the field empty).
/// `None` as a whole where the sentence does not decode.
pub uninterp spec fn nmea_writes(sentence: Seq<char>) -> Option<
    (Option<Option<Seq<char>>>, Option<Option<Seq<char>>>, Option<Option<Seq<char>>>),
>;

/// One of the three position fields.
#[derive(Debug, Clone, Copy, PartialEq, Eq)]
pub enum Field {
    Latitude,
    Longitude,
    Altitude,
}

/// Abstract value of a [`PositionFix`]: the text of each field, if known.
pub struct FixView {
    pub latitude: Option<Seq<char>>,
    pub longitude: Option<Seq<char>>,
    pub altitude: Option<Seq<char>>,
}

/// A position fix: latitude and longitude in degrees and altitude in metres,
/// each rendered as text, each absent where no value is known.
#[derive(Debug)]
pub struct PositionFix {
    pub latitude: Option<String>,
    pub longitude: Option<String>,
    pub altitude: Option<String>,
}

/// Why a sentence was not taken: it does not decode as a supported NMEA sentence.
#[derive(Debug, Clone, Copy, PartialEq, Eq)]
pub struct DecodeError;

/// What feeding one raw line to the store did.
#[derive(Debug, Clone, Copy, PartialEq, Eq)]
pub enum FeedOutcome {
    /// The line was blank: nothing was done.
    Blank,
    /// The sentence decoded; the fields it writes replaced the stored ones.
    Updated,
    /// The sentence did not decode; the store is unchanged.
    Malformed,
}

pub open spec fn opt_view(o: Option<String>) -> Option<Seq<char>> {
    match o {
        Some(s) => Some(s@),
        None => None,
    }
}

impl View for PositionFix {
    type V = FixView;

    open spec fn view(&self) -> FixView {
        FixView {
            latitude: opt_view(self.latitude),
            longitude: opt_view(self.longitude),
            altitude: opt_view(self.altitude),
        }
    }
}

/// The fix that no sentence has supplied anything to.
pub open spec fn empty_fix() -> FixView {
    FixView { latitude: None, longitude: None, altitude: None }
}

pub open spec fn position_view(
    t: (Option<Seq<char>>, Option<Seq<char>>, Option<Seq<char>>),
) -> FixView {
    FixView { latitude: t.0, longitude: t.1, altitude: t.2 }
}

pub open spec fn field_of(v: FixView, k: Field) -> Option<Seq<char>> {
    match k {
        Field::Latitude => v.latitude,
        Field::Longitude => v.longitude,
        Field::Altitude => v.altitude,
    }
}

/// What a decoded sentence writes to field `k`, if it writes that field.
pub open spec fn write_of(
    w: (Option<Option<Seq<char>>>, Option<Option<Seq<char>>>, Option<Option<Seq<char>>>),
    k: Field,
) -> Option<Option<Seq<char>>> {
    match k {
        Field::Latitude => w.0,
        Field::Longitude => w.1,
        Field::Altitude => w.2,
    }
}

/// A field after a write: the written value where there is one, else the old one.
pub open spec fn write_field(
    current: Option<Seq<char>>,
    w: Option<Option<Seq<char>>>,
) -> Option<Seq<char>> {
    match w {
        Some(v) => v,
        None => current,
    }
}

/// `v` with each field that a sentence writes set to the written value,
/// an empty one included; the fields that it does not write are kept.
pub open spec fn written(
    v: FixView,
    w: (Option<Option<Seq<char>>>, Option<Option<Seq<char>>>, Option<Option<Seq<char>>>),
) -> FixView {
    FixView {
        latitude: write_field(v.latitude, w.0),
        longitude: write_field(v.longitude, w.1),
        altitude: write_field(v.altitude, w.2),
    }
}

/// The fix after applying one sentence: written where it decodes, else unchanged.
pub open spec fn applied(v: FixView, sentence: Seq<char>) -> FixView {
    match nmea_writes(sentence) {
        Some(w) => written(v, w),
        None => v,
    }
}

/// The fix after feeding one raw line: blank lines are skipped, others trimmed.
pub open spec fn stepped(v: FixView, line: Seq<char>) -> FixView {
    if all_ws(line) {
        v
    } else {
        applied(v, trimmed(line))
    }
}

/// The fix after feeding `lines` in order, starting from `v`.
pub open spec fn fix_after(v: FixView, lines: Seq<Seq<char>>) -> FixView
    decreases lines.len(),
{
    if lines.len() == 0 {
        v
    } else {
        stepped(fix_after(v, lines.drop_last()), lines.last())
    }
}

/// Whether feeding `line` writes field `k`: the line is not blank, its
/// trimmed text decodes, and the decoded sentence writes that field.
pub open spec fn supplies(line: Seq<char>, k: Field) -> bool {
    !all_ws(line) && nmea_writes(trimmed(line)) is Some && write_of(
        nmea_writes(trimmed(line))->Some_0,
        k,
    ) is Some
}

/// The value, possibly empty, that the trimmed text of `line` writes to field `k`.
pub open spec fn supplied(line: Seq<char>, k: Field) -> Option<Seq<char>> {
    write_of(nmea_writes(trimmed(line))->Some_0, k)->Some_0
}

proof fn lemma_stepped_field(v: FixView, line: Seq<char>, k: Field)
    ensures
        field_of(stepped(v, line), k) == if supplies(line, k) {
            supplied(line, k)
        } else {
            field_of(v, k)
        },
{
}

/// After any sequence of raw lines, each field holds the value written by
/// the last line that wrote it (empty where that line carried it empty), or
/// its starting value where no line did. Blank lines and sentences that do
/// not decode write nothing.
pub proof fn lemma_latest_supplier_wins(v: FixView, lines: Seq<Seq<char>>, k: Field)
    ensures
        (forall|i: int| 0 <= i < lines.len() ==> !supplies(#[trigger] lines[i], k)) ==> field_of(
            fix_after(v, lines),
            k,
        ) == field_of(v, k),
        forall|i: int|
            0 <= i < lines.len() && #[trigger] supplies(lines[i], k) && (forall|j: int|
                i < j < lines.len() ==> !supplies(#[trigger] lines[j], k)) ==> field_of(
                fix_after(v, lines),
                k,
            ) == supplied(lines[i], k),
    decreases lines.len(),
{
    if lines.len() > 0 {
        let p = lines.drop_last();
        let n = lines.len() - 1;
        lemma_latest_supplier_wins(v, p, k);
        lemma_stepped_field(fix_after(v, p), lines.last(), k);
        assert forall|i: int| 0 <= i < p.len() implies p[i] == lines[i] by {}
        if forall|i: int| 0 <= i < lines.len() ==> !supplies(#[trigger] lines[i], k) {
            assert(!supplies(lines[n], k));
            assert forall|i: int| 0 <= i < p.len() implies !supplies(#[trigger] p[i], k) by {
                assert(p[i] == lines[i]);
            }
        }
        assert forall|i: int|
            0 <= i < lines.len() && #[trigger] supplies(lines[i], k) && (forall|j: int|
                i < j < lines.len() ==> !supplies(#[trigger] lines[j], k)) implies field_of(
            fix_after(v, lines),
            k,
        ) == supplied(lines[i], k) by {
            if i < n {
                assert(!supplies(lines[n], k));
                assert(p[i] == lines[i]);
                assert forall|j: int| i < j < p.len() implies !supplies(#[trigger] p[j], k) by {
                    assert(p[j] == lines[j]);
                }
            }
        }
    }
}

/// A line that writes nothing, because it is blank or does not decode,
/// leaves the whole fix as it was, after any earlier lines.
pub proof fn lemma_idle_line_keeps_fix(v: FixView, lines: Seq<Seq<char>>, line: Seq<char>)
    requires
        all_ws(line) || nmea_writes(trimmed(line)) is None,
    ensures
        fix_after(v, lines.push(line)) == fix_after(v, lines),
{
    assert(lines.push(line).drop_last() =~= lines);
}

/// Of two sentences fed one after the other, the second one's value of a
/// field that it writes is the one that stays, whatever the first held.
pub proof fn lemma_later_sentence_wins(v: FixView, s1: Seq<char>, s2: Seq<char>, k: Field)
    requires
        supplies(s2, k),
    ensures
        field_of(fix_after(v, seq![s1, s2]), k) == supplied(s2, k),
{
    let both = seq![s1, s2];
    assert(both.drop_last() =~= seq![s1]);
    assert(seq![s1].drop_last() =~= Seq::<Seq<char>>::empty());
    lemma_stepped_field(fix_after(v, seq![s1]), s2, k);
}

/// Relies on `nmea::Nmea::default`: a new decoder holds no position.
#[verifier::external_body]
fn nmea_new() -> (r: nmea::Nmea)
    ensures
        nmea_position(r) == (None::<Seq<char>>, None::<Seq<char>>, None::<Seq<char>>),
{
    nmea::Nmea::default()
}

/// Relies on `nmea::Nmea::parse`: whether a sentence decodes, and what it
/// writes to the latitude, longitude and altitude fields, depend on the
/// sentence alone (`merge_gga_data`, `merge_rmc_data`, `merge_gns_data`,
/// `merge_gll_data`); a sentence that does not decode writes nothing. The
/// sentence is parsed by a new decoder that takes over only the position,
/// so the satellite lists that `parse` fills never grow past one sentence
/// and their `expect` calls cannot fail. A sentence without the `*` that
/// opens its checksum never decodes (`do_parse_nmea_sentence`).
#[verifier::external_body]
fn nmea_parse(decoder: &mut nmea::Nmea, sentence: &str) -> (r: bool)
    ensures
        r == nmea_writes(sentence@) is Some,
        !sentence@.contains('*') ==> !r,
        position_view(nmea_position(*final(decoder))) == applied(
            position_view(nmea_position(*old(decoder))),
            sentence@,
        ),
{
    let mut next = nmea::Nmea::default();
    next.latitude = decoder.latitude;
    next.longitude = decoder.longitude;
    next.altitude = decoder.altitude;
    let r = next.parse(sentence).is_ok();
    *decoder = next;
    r
}

/// Relies on `nmea::Nmea::latitude`, `longitude` and `altitude`, each
/// rendered with `Display`: the position that the decoder holds.
#[verifier::external_body]
fn nmea_read(decoder: &nmea::Nmea) -> (r: PositionFix)
    ensures
        r@ == position_view(nmea_position(*decoder)),
{
    PositionFix {
        latitude: decoder.latitude().map(|v| format!("{v}")),
        longitude: decoder.longitude().map(|v| format!("{v}")),
        altitude: decoder.altitude().map(|v| format!("{v}")),
    }
}

/// Decodes one NMEA sentence on its own, into the position fields it
/// writes; the fields it does not write are absent.
pub fn decode(sentence: &str) -> (r: Result<PositionFix, DecodeError>)
    ensures
        r is Ok <==> nmea_writes(sentence@) is Some,
        r matches Ok(f) ==> f@ == written(empty_fix(), nmea_writes(sentence@)->Some_0),
{
    let mut decoder = nmea_new();
    if nmea_parse(&mut decoder, sentence) {
        Ok(nmea_read(&decoder))
    } else {
        Err(DecodeError)
    }
}

fn clone_text(o: &Option<String>) -> (r: Option<String>)
    ensures
        opt_view(r) == opt_view(*o),
{
    match o {
        Some(s) => Some(s.clone()),
        None => None,
    }
}

impl PositionFix {
    /// The fix with no field known.
    pub fn empty() -> (r: PositionFix)
        ensures
            r@ == empty_fix(),
    {
        PositionFix { latitude: None, longitude: None, altitude: None }
    }

    /// A copy of this fix.
    pub fn copy(&self) -> (r: PositionFix)
        ensures
            r@ == self@,
    {
        PositionFix {
            latitude: clone_text(&self.latitude),
            longitude: clone_text(&self.longitude),
            altitude: clone_text(&self.altitude),
        }
    }
}

/// Holder of the latest known position fix: one NMEA decoder, updated
/// sentence by sentence.
pub struct PositionStore {
    decoder: nmea::Nmea,
}

impl View for PositionStore {
    type V = FixView;

    closed spec fn view(&self) -> FixView {
        position_view(nmea_position(self.decoder))
    }
}

impl PositionStore {
    /// A store that knows no position yet.
    pub fn new() -> (r: PositionStore)
        ensures
            r@ == empty_fix(),
    {
        PositionStore { decoder: nmea_new() }
    }

    /// The fix as it stands now.
    pub fn snapshot(&self) -> (r: PositionFix)
        ensures
            r@ == self@,
    {
        nmea_read(&self.decoder)
    }

    /// Decodes `sentence` and, where it decodes, writes the fields it carries
    /// into the stored fix, clearing those it carries empty; a malformed
    /// sentence leaves the store unchanged.
    pub fn apply(&mut self, sentence: &str) -> (r: Result<(), DecodeError>)
        ensures
            r is Ok <==> nmea_writes(sentence@) is Some,
            !sentence@.contains('*') ==> r is Err,
            final(self)@ == applied(old(self)@, sentence@),
    {
        if nmea_parse(&mut self.decoder, sentence) {
            Ok(())
        } else {
            Err(DecodeError)
        }
    }

    /// Feeds one raw line: blank lines are skipped, others are trimmed and applied.
    pub fn feed_line(&mut self, line: &str) -> (r: FeedOutcome)
        ensures
            r is Blank <==> all_ws(line@),
            r is Updated <==> !all_ws(line@) && nmea_writes(trimmed(line@)) is Some,
            !line@.contains('*') ==> r !is Updated && final(self)@ == old(self)@,
            final(self)@ == stepped(old(self)@, line@),
    {
        match clean_line(line) {
            None => FeedOutcome::Blank,
            Some(sentence) => {
                proof {
                    lemma_trimmed_within(line@);
                }
                match self.apply(sentence.as_str()) {
                    Ok(()) => FeedOutcome::Updated,
                    Err(_) => FeedOutcome::Malformed,
                }
            },
        }
    }
    /// Feeds each of `lines` in order.
    pub fn feed_lines(&mut self, lines: &Vec<String>)
        ensures
            final(self)@ == fix_after(old(self)@, lines@.map_values(|s: String| s@)),
    {
        let ghost start = self@;
        let ghost all = lines@.map_values(|s: String| s@);
        let mut i: usize = 0;
        while i < lines.len()
            invariant
                i <= lines.len(),
                all == lines@.map_values(|s: String| s@),
                self@ == fix_after(start, all.subrange(0, i as int)),
            decreases lines.len() - i,
        {
            proof {
                assert(all.subrange(0, i + 1).drop_last() =~= all.subrange(0, i as int));
            }
            self.feed_line(lines[i].as_str());
            i = i + 1;
        }
        proof {
            assert(all.subrange(0, lines.len() as int) =~= all);
        }
    }
}


} // verus!
