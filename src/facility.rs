use vstd::prelude::*;
use crate::category::Category;
use crate::geo::Position;
use crate::tags::{Tags, Tag, lookup};
use crate::classify::{RuleSet, RuleView, classify, detect_category};
use crate::contribution::{ContributionTable, contribution_spec, calculate_contribution};
use crate::scoring::PPM;
use crate::text::{lower_of, texts};

verus! {

/// The identity of a facility: its canonical category and the identifier
/// that the point-of-interest source gave the record.
#[derive(Clone, Copy, Debug, PartialEq, Eq, Structural)]
pub struct FacilityId {
    pub category: Category,
    pub raw_id: u64,
}

/// A classified point of interest with its distance-decayed contribution.
pub struct Facility {
    pub raw_id: u64,
    pub name: String,
    pub category: Category,
    pub position: Position,
    /// Distance from the query location, in millimetres.
    pub distance_mm: u64,
    /// Contribution to its category, in millionths of a point.
    pub contribution: u64,
    pub tags: Option<Tags>,
}

impl Facility {
    pub open spec fn id_spec(self) -> FacilityId {
        FacilityId { category: self.category, raw_id: self.raw_id }
    }

    pub fn id(&self) -> (r: FacilityId)
        ensures
            r == self.id_spec(),
    {
        FacilityId { category: self.category, raw_id: self.raw_id }
    }
}


/// The tags of an optional tag set; none where absent.
pub open spec fn tags_view(t: Option<Tags>) -> Option<Seq<Tag>> {
    match t {
        Some(t) => Some(t.entries@),
        None => None,
    }
}

/// The entries of an optional tag set; empty where absent.
pub open spec fn entries_of(t: Option<Tags>) -> Seq<Tag> {
    match t {
        Some(t) => t.entries@,
        None => Seq::empty(),
    }
}

/// The meaning of a facility.
pub struct FacilityView {
    pub raw_id: u64,
    pub name: Seq<char>,
    pub category: Category,
    pub position: Position,
    pub distance_mm: u64,
    pub contribution: u64,
    pub tags: Option<Seq<Tag>>,
}

impl FacilityView {
    pub open spec fn id(self) -> FacilityId {
        FacilityId { category: self.category, raw_id: self.raw_id }
    }
}

impl View for Facility {
    type V = FacilityView;

    open spec fn view(&self) -> FacilityView {
        FacilityView {
            raw_id: self.raw_id,
            name: self.name@,
            category: self.category,
            position: self.position,
            distance_mm: self.distance_mm,
            contribution: self.contribution,
            tags: tags_view(self.tags),
        }
    }
}

/// A record as the point-of-interest source returned it: an explicit point,
/// a centre of its bounding shape, or neither.
pub struct RawRecord {
    pub id: u64,
    pub lat: Option<i64>,
    pub lon: Option<i64>,
    pub center: Option<Position>,
    pub tags: Option<Tags>,
}

/// The position of a record: each coordinate from its point where given,
/// else from the centre of its shape.
pub open spec fn position_of(r: RawRecord) -> Option<Position> {
    let lat = match r.lat {
        Some(v) => Some(v),
        None => match r.center {
            Some(c) => Some(c.lat),
            None => None,
        },
    };
    let lng = match r.lon {
        Some(v) => Some(v),
        None => match r.center {
            Some(c) => Some(c.lng),
            None => None,
        },
    };
    match (lat, lng) {
        (Some(a), Some(b)) => Some(Position { lat: a, lng: b }),
        _ => None,
    }
}

/// The position of `r`, where it has one.
pub fn resolve_position(r: &RawRecord) -> (p: Option<Position>)
    ensures
        p == position_of(*r),
{
    let lat = match r.lat {
        Some(v) => Some(v),
        None => match r.center {
            Some(c) => Some(c.lat),
            None => None,
        },
    };
    let lng = match r.lon {
        Some(v) => Some(v),
        None => match r.center {
            Some(c) => Some(c.lng),
            None => None,
        },
    };
    match (lat, lng) {
        (Some(a), Some(b)) => Some(Position { lat: a, lng: b }),
        _ => None,
    }
}

/// Where a facility's display name comes from.
pub struct NameConfig {
    /// Tag keys tried in order.
    pub fields: Vec<String>,
    /// The name of a record that has none of them.
    pub default_name: String,
}

impl NameConfig {
    /// The given fields and default, or where absent the fields `name`,
    /// `amenity` and the default `facility`.
    pub fn from_parts(fields: Option<Vec<String>>, default_name: Option<String>) -> (r: NameConfig)
        ensures
            texts(r.fields@) == match fields {
                Some(f) => texts(f@),
                None => seq!["name"@, "amenity"@],
            },
            r.default_name@ == match default_name {
                Some(d) => d@,
                None => "facility"@,
            },
    {
        let fields = match fields {
            Some(f) => f,
            None => {
                let mut f: Vec<String> = Vec::new();
                f.push("name".to_owned());
                f.push("amenity".to_owned());
                assert(texts(f@) =~= seq!["name"@, "amenity"@]);
                f
            },
        };
        let default_name = match default_name {
            Some(d) => d,
            None => "facility".to_owned(),
        };
        NameConfig { fields, default_name }
    }
}

/// The value of the first of `fields` that `tags` holds.
pub open spec fn first_present(tags: Seq<Tag>, fields: Seq<Seq<char>>) -> Option<Seq<char>>
    decreases fields.len(),
{
    if fields.len() == 0 {
        None
    } else {
        match lookup(tags, fields[0]) {
            Some(v) => Some(v),
            None => first_present(tags, fields.drop_first()),
        }
    }
}

/// The display name of a record with tags `tags`.
pub open spec fn name_of(tags: Seq<Tag>, cfg: NameConfig) -> Seq<char> {
    match first_present(tags, texts(cfg.fields@)) {
        Some(v) => v,
        None => cfg.default_name@,
    }
}

/// The value of the first configured field present in `tags`, else the
/// configured default name.
pub fn extract_facility_name(tags: &Tags, cfg: &NameConfig) -> (r: String)
    ensures
        r@ == name_of(tags.entries@, *cfg),
{
    let ghost fields = texts(cfg.fields@);
    let n = cfg.fields.len();
    let mut i: usize = 0;
    assert(fields.subrange(0, n as int) =~= fields);
    while i < n
        invariant
            n == cfg.fields@.len(),
            fields == texts(cfg.fields@),
            0 <= i <= n,
            first_present(tags.entries@, fields) == first_present(
                tags.entries@,
                fields.subrange(i as int, n as int),
            ),
        decreases n - i,
    {
        let rest = Ghost(fields.subrange(i as int, n as int));
        assert(rest@[0] == cfg.fields@[i as int]@);
        match tags.get(cfg.fields[i].as_str()) {
            Some(v) => {
                return v.clone();
            },
            None => {},
        }
        assert(rest@.drop_first() =~= fields.subrange(i + 1, n as int));
        i += 1;
    }
    cfg.default_name.clone()
}

/// A record that has a position and a category.
pub struct Candidate {
    pub raw_id: u64,
    pub name: String,
    pub category: Category,
    pub position: Position,
    pub tags: Option<Tags>,
}

/// The meaning of a candidate.
pub struct CandidateView {
    pub raw_id: u64,
    pub name: Seq<char>,
    pub category: Category,
    pub position: Position,
    pub tags: Option<Seq<Tag>>,
}

impl View for Candidate {
    type V = CandidateView;

    open spec fn view(&self) -> CandidateView {
        CandidateView {
            raw_id: self.raw_id,
            name: self.name@,
            category: self.category,
            position: self.position,
            tags: tags_view(self.tags),
        }
    }
}

/// What record `r` becomes: nothing where it has no position or no
/// category matches; else a candidate with its category and name.
pub open spec fn candidate_of(r: RawRecord, rules: Seq<RuleView>, names: NameConfig) -> Option<
    CandidateView,
> {
    let tags = entries_of(r.tags);
    let name = name_of(tags, names);
    match position_of(r) {
        None => None,
        Some(p) => match classify(rules, tags, lower_of(name)) {
            None => None,
            Some(c) => Some(
                CandidateView { raw_id: r.id, name, category: c, position: p, tags: tags_view(r.tags) },
            ),
        },
    }
}

/// The candidates of `records`, in their order.
pub open spec fn candidates_of(records: Seq<RawRecord>, rules: Seq<RuleView>, names: NameConfig) -> Seq<
    CandidateView,
>
    decreases records.len(),
{
    if records.len() == 0 {
        Seq::empty()
    } else {
        let prev = candidates_of(records.drop_last(), rules, names);
        match candidate_of(records.last(), rules, names) {
            Some(c) => prev.push(c),
            None => prev,
        }
    }
}

/// The candidate that `r` makes, if any.
pub fn classify_record(r: RawRecord, rules: &RuleSet, names: &NameConfig) -> (c: Option<Candidate>)
    ensures
        match c {
            Some(c) => candidate_of(r, rules@, *names) == Some(c@),
            None => candidate_of(r, rules@, *names) is None,
        },
{
    let position = match resolve_position(&r) {
        Some(p) => p,
        None => {
            return None;
        },
    };
    let empty = Tags::new();
    let tags_ref = match &r.tags {
        Some(t) => t,
        None => &empty,
    };
    assert(tags_ref.entries@ =~= entries_of(r.tags));
    let name = extract_facility_name(tags_ref, names);
    let category = match detect_category(rules, tags_ref, name.as_str()) {
        Some(c) => c,
        None => {
            return None;
        },
    };
    Some(Candidate { raw_id: r.id, name, category, position, tags: r.tags })
}

/// Appends `c` to `v`.
fn push_candidate(v: &mut Vec<Candidate>, c: Candidate)
    ensures
        final(v)@.map_values(|x: Candidate| x@) == old(v)@.map_values(|x: Candidate| x@).push(c@),
{
    v.push(c);
    assert(final(v)@.map_values(|x: Candidate| x@) =~= old(v)@.map_values(|x: Candidate| x@).push(
        c@,
    ));
}

/// The records that have a position and a category, classified, in their
/// order.
pub fn classify_records(records: Vec<RawRecord>, rules: &RuleSet, names: &NameConfig) -> (r: Vec<
    Candidate,
>)
    ensures
        r@.map_values(|x: Candidate| x@) == candidates_of(records@, rules@, *names),
{
    let ghost all = records@;
    let mut out: Vec<Candidate> = Vec::new();
    assert(out@.map_values(|x: Candidate| x@) =~= candidates_of(all.take(0), rules@, *names));
    for rec in it: records.into_iter()
        invariant
            it.seq() == all,
            out@.map_values(|x: Candidate| x@) == candidates_of(
                all.take(it.index() as int),
                rules@,
                *names,
            ),
    {
        let ghost i = it.index();
        proof {
            assert(all.take(i + 1).drop_last() =~= all.take(i as int));
        }
        match classify_record(rec, rules, names) {
            Some(c) => push_candidate(&mut out, c),
            None => {},
        }
    }
    assert(all.take(all.len() as int) =~= all);
    out
}

/// A candidate with its distance from the query location (millimetres) and
/// its distance decay `(1 - distance / radius) ^ exponent` in parts per
/// million.
pub struct MeasuredCandidate {
    pub candidate: Candidate,
    pub distance_mm: u64,
    pub decay: u64,
}

/// The contribution that `m` earns under `table`.
pub open spec fn measured_contribution(m: MeasuredCandidate, table: ContributionTable) -> int {
    contribution_spec(
        m.distance_mm,
        table.max_radius_mm,
        table.params_spec(m.candidate.category),
        m.decay,
    )
}

/// What `m` becomes: nothing where it contributes nothing (as beyond the
/// radius); else a facility with its contribution.
pub open spec fn facility_of(m: MeasuredCandidate, table: ContributionTable) -> Option<FacilityView> {
    let c = measured_contribution(m, table);
    if c > 0 {
        Some(
            FacilityView {
                raw_id: m.candidate.raw_id,
                name: m.candidate.name@,
                category: m.candidate.category,
                position: m.candidate.position,
                distance_mm: m.distance_mm,
                contribution: c as u64,
                tags: tags_view(m.candidate.tags),
            },
        )
    } else {
        None
    }
}

/// The facilities of `ms`, in their order.
pub open spec fn facilities_of(ms: Seq<MeasuredCandidate>, table: ContributionTable) -> Seq<FacilityView>
    decreases ms.len(),
{
    if ms.len() == 0 {
        Seq::empty()
    } else {
        let prev = facilities_of(ms.drop_last(), table);
        match facility_of(ms.last(), table) {
            Some(f) => prev.push(f),
            None => prev,
        }
    }
}

/// Every decay factor of `ms` is at most one.
pub open spec fn decays_bounded(ms: Seq<MeasuredCandidate>) -> bool {
    forall|k: int| 0 <= k < ms.len() ==> (#[trigger] ms[k]).decay <= PPM
}

/// Appends `f` to `v`.
pub(crate) fn push_facility(v: &mut Vec<Facility>, f: Facility)
    ensures
        final(v)@.map_values(|x: Facility| x@) == old(v)@.map_values(|x: Facility| x@).push(f@),
{
    v.push(f);
    assert(final(v)@.map_values(|x: Facility| x@) =~= old(v)@.map_values(|x: Facility| x@).push(f@));
}

/// The candidates that contribute, each with its contribution, in their
/// order.
pub fn process_facilities(measured: Vec<MeasuredCandidate>, table: &ContributionTable) -> (r: Vec<
    Facility,
>)
    requires
        table.wf(),
        decays_bounded(measured@),
    ensures
        r@.map_values(|x: Facility| x@) == facilities_of(measured@, *table),
{
    let ghost all = measured@;
    let mut out: Vec<Facility> = Vec::new();
    assert(out@.map_values(|x: Facility| x@) =~= facilities_of(all.take(0), *table));
    for m in it: measured.into_iter()
        invariant
            it.seq() == all,
            table.wf(),
            decays_bounded(all),
            out@.map_values(|x: Facility| x@) == facilities_of(
                all.take(it.index() as int),
                *table,
            ),
    {
        let ghost i = it.index();
        proof {
            assert(all.take(i + 1).drop_last() =~= all.take(i as int));
            assert(all[i as int] == m);
        }
        let params = table.get_contribution_weights(m.candidate.category);
        let contribution = calculate_contribution(
            m.distance_mm,
            table.max_radius_mm,
            &params,
            m.decay,
        );
        if contribution > 0 {
            let c = m.candidate;
            push_facility(
                &mut out,
                Facility {
                    raw_id: c.raw_id,
                    name: c.name,
                    category: c.category,
                    position: c.position,
                    distance_mm: m.distance_mm,
                    contribution,
                    tags: c.tags,
                },
            );
        }
    }
    assert(all.take(all.len() as int) =~= all);
    out
}

} // verus!
