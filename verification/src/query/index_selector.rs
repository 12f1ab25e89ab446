//! Choosing the index that best serves a query.
//!
//! Candidates are gathered from the filter (single-field conditions, text
//! indexes for regular expressions, compound indexes covering several
//! fields of a conjunction), scored, and the first one with the highest
//! score wins.
use vstd::prelude::*;
use crate::query::ast::{Filter, Query, Sort, single_field};
use crate::schema::{IndexDefinition, IndexType};
use crate::util::str_eq;

verus! {

broadcast use vstd::std_specs::vec::axiom_vec_index_decreases;

/// The kind of an index as the selector sees it (geospatial indexes are
/// treated as single-field ones).
#[derive(Debug)]
pub enum CandidateType {
    Single { field: String },
    Compound { fields: Vec<String> },
    Text { field: String },
}

/// An index that the selector may pick.
#[derive(Debug)]
pub struct IndexCandidate {
    pub name: String,
    pub index_type: CandidateType,
    pub unique: bool,
    pub sparse: bool,
    /// Selection bonus of the index itself (zero for every known index).
    pub score: i128,
}

/// The index selector.
#[derive(Debug)]
pub struct IndexSelector {
    pub available_indexes: Vec<IndexCandidate>,
}

/// Selection errors.
#[derive(Debug)]
pub enum IndexSelectionError {
    SelectionError(String),
    InvalidIndex(String),
}

/// A candidate: the position of the index among the available ones, and
/// its score so far.
pub type Cand = (usize, i128);

// ---------------------------------------------------------------------
// Specifications
// ---------------------------------------------------------------------
pub open spec fn names_of(v: Seq<String>) -> Seq<Seq<char>> {
    v.map_values(|s: String| s@)
}

/// Whether the index can serve a condition on `field`.
pub open spec fn usable_for(c: IndexCandidate, field: Seq<char>) -> bool {
    match c.index_type {
        CandidateType::Single { field: f } => f@ == field,
        CandidateType::Compound { fields } => names_of(fields@).contains(field),
        CandidateType::Text { field: f } => f@ == field,
    }
}

pub open spec fn cand_name(avail: Seq<IndexCandidate>, c: Cand) -> Seq<char> {
    avail[c.0 as int].name@
}

pub open spec fn has_name(avail: Seq<IndexCandidate>, cands: Seq<Cand>, name: Seq<char>) -> bool {
    exists|j: int| 0 <= j < cands.len() && cand_name(avail, #[trigger] cands[j]) == name
}

/// Adds a candidate unless one with the same index name is there already.
pub open spec fn add_cand(avail: Seq<IndexCandidate>, cands: Seq<Cand>, c: Cand) -> Seq<Cand> {
    if has_name(avail, cands, cand_name(avail, c)) {
        cands
    } else {
        cands.push(c)
    }
}

/// Adds, in order, every available index usable for `field` (from position `k`).
pub open spec fn field_pass(avail: Seq<IndexCandidate>, field: Seq<char>, cands: Seq<Cand>, k: int) -> Seq<Cand>
    decreases avail.len() - k,
{
    if k < 0 || k >= avail.len() {
        cands
    } else {
        let next = if usable_for(avail[k], field) {
            add_cand(avail, cands, (k as usize, avail[k].score))
        } else {
            cands
        };
        field_pass(avail, field, next, k + 1)
    }
}

/// Adds every text index usable for `field`, with a bonus of 5.
pub open spec fn text_pass(avail: Seq<IndexCandidate>, field: Seq<char>, cands: Seq<Cand>, k: int) -> Seq<Cand>
    decreases avail.len() - k,
{
    if k < 0 || k >= avail.len() {
        cands
    } else {
        let next = if avail[k].index_type is Text && usable_for(avail[k], field) {
            add_cand(avail, cands, (k as usize, (avail[k].score + 5) as i128))
        } else {
            cands
        };
        text_pass(avail, field, next, k + 1)
    }
}

/// How many of the query fields `qf` (counted with repetition) an index
/// on `fields` covers.
pub open spec fn covered(qf: Seq<Seq<char>>, fields: Seq<Seq<char>>) -> nat
    decreases qf.len(),
{
    if qf.len() == 0 {
        0
    } else {
        covered(qf.drop_last(), fields) + if fields.contains(qf.last()) {
            1nat
        } else {
            0nat
        }
    }
}

/// Adds every compound index that covers more than one of the fields of a
/// conjunction, with a bonus of twice the number of covered fields.
pub open spec fn compound_pass(avail: Seq<IndexCandidate>, qf: Seq<Seq<char>>, cands: Seq<Cand>, k: int) -> Seq<Cand>
    decreases avail.len() - k,
{
    if k < 0 || k >= avail.len() {
        cands
    } else {
        let next = match avail[k].index_type {
            CandidateType::Compound { fields } => {
                let n = covered(qf, names_of(fields@));
                if n > 1 {
                    add_cand(avail, cands, (k as usize, (avail[k].score + 2 * n) as i128))
                } else {
                    cands
                }
            },
            _ => cands,
        };
        compound_pass(avail, qf, next, k + 1)
    }
}

/// The fields of the single-field conditions among `fs`, in order.
pub open spec fn single_fields(fs: Seq<Filter>) -> Seq<Seq<char>>
    decreases fs.len(),
{
    if fs.len() == 0 {
        Seq::empty()
    } else {
        let rest = single_fields(fs.drop_last());
        match single_field(fs.last()) {
            Some(f) => rest.push(f),
            None => rest,
        }
    }
}

/// The candidates a filter contributes, added after `cands`.
pub open spec fn analyze(avail: Seq<IndexCandidate>, f: Filter, cands: Seq<Cand>) -> Seq<Cand>
    decreases f,
{
    match f {
        Filter::Empty => cands,
        Filter::Regex { field, .. } => field_pass(
            avail,
            field@,
            text_pass(avail, field@, cands, 0),
            0,
        ),
        Filter::And(fs) => compound_pass(
            avail,
            single_fields(fs@),
            analyze_list(avail, fs@, cands),
            0,
        ),
        Filter::Or(fs) => analyze_list(avail, fs@, cands),
        Filter::Not(b) => analyze(avail, *b, cands),
        _ => field_pass(avail, single_field(f).unwrap(), cands, 0),
    }
}

pub open spec fn analyze_list(avail: Seq<IndexCandidate>, fs: Seq<Filter>, cands: Seq<Cand>) -> Seq<Cand>
    decreases fs,
{
    if fs.len() == 0 {
        cands
    } else {
        analyze_list(avail, fs.drop_first(), analyze(avail, fs[0], cands))
    }
}

/// The filter holds an equality condition (outside of negations too).
pub open spec fn has_eq(f: Filter) -> bool
    decreases f,
{
    match f {
        Filter::Eq { .. } => true,
        Filter::And(fs) => any_has_eq(fs@),
        Filter::Or(fs) => any_has_eq(fs@),
        Filter::Not(b) => has_eq(*b),
        _ => false,
    }
}

pub open spec fn any_has_eq(fs: Seq<Filter>) -> bool
    decreases fs,
{
    if fs.len() == 0 {
        false
    } else {
        has_eq(fs[0]) || any_has_eq(fs.drop_first())
    }
}

/// A member of a list that holds an equality makes the list hold one.
proof fn lemma_any_has_eq_at(fs: Seq<Filter>, i: int)
    requires
        0 <= i < fs.len(),
        has_eq(fs[i]),
    ensures
        any_has_eq(fs),
    decreases i,
{
    if i > 0 {
        lemma_any_has_eq_at(fs.drop_first(), i - 1);
    }
}

/// An equality condition anywhere in a conjunction or a disjunction makes
/// it an equality query: for such a query a unique index scores exactly 10
/// more than the same index without uniqueness.
pub proof fn lemma_equality_in_conjunction(filters: Vec<Filter>, i: int, c: IndexCandidate, base: int, q: Query)
    requires
        0 <= i < filters@.len(),
        filters@[i] is Eq,
        c.unique,
        q.filter == Filter::And(filters) || q.filter == Filter::Or(filters),
    ensures
        has_eq(Filter::And(filters)),
        has_eq(Filter::Or(filters)),
        final_score(c, base, q) == final_score(IndexCandidate { unique: false, ..c }, base, q) + 10,
{
    lemma_any_has_eq_at(filters@, i);
}

/// The filter holds an existence condition.
pub open spec fn has_exists(f: Filter) -> bool
    decreases f,
{
    match f {
        Filter::Exists { .. } => true,
        Filter::And(fs) => any_has_exists(fs@),
        Filter::Or(fs) => any_has_exists(fs@),
        Filter::Not(b) => has_exists(*b),
        _ => false,
    }
}

pub open spec fn any_has_exists(fs: Seq<Filter>) -> bool
    decreases fs,
{
    if fs.len() == 0 {
        false
    } else {
        has_exists(fs[0]) || any_has_exists(fs.drop_first())
    }
}

/// The index's leading field is the first sort key.
pub open spec fn helps_sort(c: IndexCandidate, sort: Sort) -> bool {
    sort.fields@.len() > 0 && match c.index_type {
        CandidateType::Single { field } => field@ == sort.fields@[0].0@,
        CandidateType::Compound { fields } => fields@.len() > 0 && fields@[0]@ == sort.fields@[0].0@,
        CandidateType::Text { .. } => false,
    }
}

/// The final score of a candidate for a query.
pub open spec fn final_score(c: IndexCandidate, base: int, q: Query) -> int {
    base + (if c.unique && has_eq(q.filter) {
        10int
    } else {
        0int
    }) + (if q.sort matches Some(s) && helps_sort(c, s) {
        5int
    } else {
        0int
    }) - (if c.sparse && !has_exists(q.filter) {
        2int
    } else {
        0int
    })
}

/// Position of the first candidate with the highest score.
pub open spec fn first_best(scores: Seq<int>, m: int) -> bool {
    &&& 0 <= m < scores.len()
    &&& forall|j: int| 0 <= j < scores.len() ==> scores[j] <= scores[m]
    &&& forall|j: int| 0 <= j < m ==> scores[j] < scores[m]
}

/// Candidate positions stay within the available indexes, and their
/// scores are small.
pub open spec fn cands_ok(avail: Seq<IndexCandidate>, cands: Seq<Cand>) -> bool {
    forall|j: int|
        0 <= j < cands.len() ==> (#[trigger] cands[j]).0 < avail.len() && 0 <= cands[j].1
            < 0x1_0000_0000_0000_0000_0000_0000i128
}

impl IndexCandidate {
    /// Whether the index can serve a condition on `field`.
    #[verifier::loop_isolation(false)]
    pub fn can_use_for_field(&self, field: &str) -> (r: bool)
        ensures
            r == usable_for(*self, field@),
    {
        match &self.index_type {
            CandidateType::Single { field: f } => str_eq(f.as_str(), field),
            CandidateType::Text { field: f } => str_eq(f.as_str(), field),
            CandidateType::Compound { fields } => {
                let mut i: usize = 0;
                while i < fields.len()
                    invariant
                        i <= fields.len(),
                        forall|j: int| 0 <= j < i ==> fields@[j]@ != field@,
                    decreases fields.len() - i,
                {
                    if str_eq(fields[i].as_str(), field) {
                        assert(names_of(fields@).len() == fields@.len());
                        assert(names_of(fields@)[i as int] == field@);
                        assert(names_of(fields@).contains(field@));
                        return true;
                    }
                    i = i + 1;
                }
                assert(!names_of(fields@).contains(field@)) by {
                    if names_of(fields@).contains(field@) {
                        let k = choose|k: int| 0 <= k < names_of(fields@).len() && names_of(fields@)[k] == field@;
                        assert(fields@[k]@ == field@);
                    }
                }
                false
            },
        }
    }

    /// The candidate for an index definition.
    fn from_definition(def: IndexDefinition) -> (r: IndexCandidate)
        ensures
            r.name == def.name,
            r.unique == def.unique,
            r.sparse == def.sparse,
            r.score == 0,
    {
        let index_type = match def.index_type {
            IndexType::Single { field } => CandidateType::Single { field },
            IndexType::Compound { fields } => CandidateType::Compound { fields },
            IndexType::Text { field } => CandidateType::Text { field },
            IndexType::Geospatial { field } => CandidateType::Single { field },
        };
        IndexCandidate {
            name: def.name,
            index_type,
            unique: def.unique,
            sparse: def.sparse,
            score: 0,
        }
    }
}

impl IndexSelector {
    /// Every available index starts with a zero score.
    pub open spec fn wf(&self) -> bool {
        forall|k: int|
            0 <= k < self.available_indexes@.len() ==> (#[trigger] self.available_indexes@[k]).score
                == 0
    }

    /// A selector with no indexes.
    pub fn new() -> (r: IndexSelector)
        ensures
            r.wf(),
            r.available_indexes@.len() == 0,
    {
        IndexSelector { available_indexes: Vec::new() }
    }

    /// A selector over the given index definitions, in order.
    pub fn with_indexes(indexes: Vec<IndexDefinition>) -> (r: IndexSelector)
        ensures
            r.wf(),
            r.available_indexes@.len() == indexes@.len(),
            forall|k: int|
                0 <= k < indexes@.len() ==> (#[trigger] r.available_indexes@[k]).name
                    == indexes@[k].name && r.available_indexes@[k].unique == indexes@[k].unique
                    && r.available_indexes@[k].sparse == indexes@[k].sparse,
    {
        let mut indexes = indexes;
        let ghost orig = indexes@;
        let mut out: Vec<IndexCandidate> = Vec::new();
        while indexes.len() > 0
            invariant
                out@.len() + indexes@.len() == orig.len(),
                indexes@ == orig.subrange(out@.len() as int, orig.len() as int),
                forall|k: int| 0 <= k < out@.len() ==> (#[trigger] out@[k]).score == 0,
                forall|k: int|
                    0 <= k < out@.len() ==> (#[trigger] out@[k]).name == orig[k].name
                        && out@[k].unique == orig[k].unique && out@[k].sparse == orig[k].sparse,
            decreases indexes.len(),
        {
            let def = indexes.remove(0);
            let c = IndexCandidate::from_definition(def);
            out.push(c);
            assert(indexes@ =~= orig.subrange(out@.len() as int, orig.len() as int));
        }
        IndexSelector { available_indexes: out }
    }

    /// The name of the best index for the query, if any index applies.
    pub fn select_index(&self, query: &Query) -> (r: Result<Option<String>, IndexSelectionError>)
        requires
            self.wf(),
        ensures
            r matches Ok(res) && {
                let avail = self.available_indexes@;
                let cands = analyze(avail, query.filter, Seq::empty());
                let scores = Seq::new(
                    cands.len(),
                    |j: int| final_score(avail[cands[j].0 as int], cands[j].1 as int, *query),
                );
                match res {
                    None => avail.len() == 0 || cands.len() == 0,
                    Some(name) => avail.len() > 0 && exists|m: int|
                        first_best(scores, m) && name@ == cand_name(avail, #[trigger] cands[m]),
                }
            },
    {
        if self.available_indexes.len() == 0 {
            return Ok(None);
        }
        let ghost avail = self.available_indexes@;
        let mut cands: Vec<Cand> = Vec::new();
        self.analyze_filter(&query.filter, &mut cands);
        let ghost scores = Seq::new(
            cands@.len(),
            |j: int| final_score(avail[cands@[j].0 as int], cands@[j].1 as int, *query),
        );
        if cands.len() == 0 {
            return Ok(None);
        }
        let mut best: usize = 0;
        let mut best_score: i128 = self.calculate_score(&self.available_indexes[cands[0].0], cands[0].1, query);
        let mut i: usize = 1;
        while i < cands.len()
            invariant
                1 <= i <= cands@.len(),
                cands_ok(avail, cands@),
                avail == self.available_indexes@,
                best < i,
                best_score == scores[best as int],
                scores.len() == cands@.len(),
                forall|j: int| 0 <= j < i ==> scores[j] <= scores[best as int],
                forall|j: int| 0 <= j < best ==> scores[j] < scores[best as int],
                forall|j: int|
                    0 <= j < scores.len() ==> scores[j] == final_score(
                        avail[cands@[j].0 as int],
                        cands@[j].1 as int,
                        *query,
                    ),
            decreases cands.len() - i,
        {
            let s = self.calculate_score(&self.available_indexes[cands[i].0], cands[i].1, query);
            if s > best_score {
                best = i;
                best_score = s;
            }
            i = i + 1;
        }
        assert(first_best(scores, best as int));
        Ok(Some(self.available_indexes[cands[best].0].name.clone()))
    }

    /// Adds the candidates that `filter` contributes.
    #[verifier::loop_isolation(false)]
    fn analyze_filter(&self, filter: &Filter, cands: &mut Vec<Cand>)
        requires
            self.wf(),
            cands_ok(self.available_indexes@, old(cands)@),
        ensures
            cands_ok(self.available_indexes@, final(cands)@),
            final(cands)@ == analyze(self.available_indexes@, *filter, old(cands)@),
        decreases filter,
    {
        match filter {
            Filter::Empty => {},
            Filter::Eq { field, .. }
            | Filter::Ne { field, .. }
            | Filter::Gt { field, .. }
            | Filter::Gte { field, .. }
            | Filter::Lt { field, .. }
            | Filter::Lte { field, .. }
            | Filter::In { field, .. }
            | Filter::Nin { field, .. }
            | Filter::Exists { field, .. } => {
                self.find_indexes_for_field(field.as_str(), cands);
            },
            Filter::Regex { field, .. } => {
                self.find_text_indexes_for_field(field.as_str(), cands);
                self.find_indexes_for_field(field.as_str(), cands);
            },
            Filter::And(filters) => {
                self.analyze_list(filters, cands);
                self.find_compound_indexes(filters, cands);
            },
            Filter::Or(filters) => {
                self.analyze_list(filters, cands);
            },
            Filter::Not(inner) => {
                self.analyze_filter(inner, cands);
            },
        }
    }

    #[verifier::loop_isolation(false)]
    fn analyze_list(&self, filters: &Vec<Filter>, cands: &mut Vec<Cand>)
        requires
            self.wf(),
            cands_ok(self.available_indexes@, old(cands)@),
        ensures
            cands_ok(self.available_indexes@, final(cands)@),
            final(cands)@ == analyze_list(self.available_indexes@, filters@, old(cands)@),
        decreases filters, 0nat,
    {
        let ghost start = cands@;
        let mut i: usize = 0;
        assert(filters@.skip(0) =~= filters@);
        while i < filters.len()
            invariant
                i <= filters.len(),
                cands_ok(self.available_indexes@, cands@),
                analyze_list(self.available_indexes@, filters@, start) == analyze_list(
                    self.available_indexes@,
                    filters@.skip(i as int),
                    cands@,
                ),
            decreases filters.len() - i,
        {
            assert(filters@.skip(i as int).drop_first() =~= filters@.skip(i + 1));
            self.analyze_filter(&filters[i], cands);
            i = i + 1;
        }
        assert(filters@.skip(i as int) =~= Seq::<Filter>::empty());
    }

    /// Adds every index usable for `field`.
    fn find_indexes_for_field(&self, field: &str, cands: &mut Vec<Cand>)
        requires
            self.wf(),
            cands_ok(self.available_indexes@, old(cands)@),
        ensures
            cands_ok(self.available_indexes@, final(cands)@),
            final(cands)@ == field_pass(self.available_indexes@, field@, old(cands)@, 0),
    {
        let ghost avail = self.available_indexes@;
        let mut k: usize = 0;
        while k < self.available_indexes.len()
            invariant
                k <= avail.len(),
                avail == self.available_indexes@,
                forall|j: int| 0 <= j < avail.len() ==> (#[trigger] avail[j]).score == 0,
                cands_ok(avail, cands@),
                field_pass(avail, field@, old(cands)@, 0) == field_pass(avail, field@, cands@, k as int),
            decreases avail.len() - k,
        {
            if self.available_indexes[k].can_use_for_field(field) {
                let score = self.available_indexes[k].score;
                self.push_candidate(cands, k, score);
            }
            k = k + 1;
        }
    }

    /// Adds every text index usable for `field`, with a bonus.
    fn find_text_indexes_for_field(&self, field: &str, cands: &mut Vec<Cand>)
        requires
            self.wf(),
            cands_ok(self.available_indexes@, old(cands)@),
        ensures
            cands_ok(self.available_indexes@, final(cands)@),
            final(cands)@ == text_pass(self.available_indexes@, field@, old(cands)@, 0),
    {
        let ghost avail = self.available_indexes@;
        let mut k: usize = 0;
        while k < self.available_indexes.len()
            invariant
                k <= avail.len(),
                avail == self.available_indexes@,
                forall|j: int| 0 <= j < avail.len() ==> (#[trigger] avail[j]).score == 0,
                cands_ok(avail, cands@),
                text_pass(avail, field@, old(cands)@, 0) == text_pass(avail, field@, cands@, k as int),
            decreases avail.len() - k,
        {
            let is_text = match &self.available_indexes[k].index_type {
                CandidateType::Text { .. } => true,
                _ => false,
            };
            if is_text && self.available_indexes[k].can_use_for_field(field) {
                let score = self.available_indexes[k].score + 5;
                self.push_candidate(cands, k, score);
            }
            k = k + 1;
        }
    }

    /// Adds every compound index covering more than one field of a conjunction.
    fn find_compound_indexes(&self, filters: &Vec<Filter>, cands: &mut Vec<Cand>)
        requires
            self.wf(),
            cands_ok(self.available_indexes@, old(cands)@),
        ensures
            cands_ok(self.available_indexes@, final(cands)@),
            final(cands)@ == compound_pass(
                self.available_indexes@,
                single_fields(filters@),
                old(cands)@,
                0,
            ),
    {
        let ghost avail = self.available_indexes@;
        let mut qf: Vec<String> = Vec::new();
        let mut i: usize = 0;
        while i < filters.len()
            invariant
                i <= filters.len(),
                names_of(qf@) == single_fields(filters@.subrange(0, i as int)),
            decreases filters.len() - i,
        {
            proof {
                assert(filters@.subrange(0, i + 1).drop_last() =~= filters@.subrange(0, i as int));
            }
            match single_field_of(&filters[i]) {
                Some(f) => {
                    qf.push(f);
                    assert(names_of(qf@) =~= single_fields(filters@.subrange(0, i as int)).push(
                        qf@.last()@,
                    ));
                },
                None => {},
            }
            i = i + 1;
        }
        assert(filters@.subrange(0, filters@.len() as int) =~= filters@);
        let mut k: usize = 0;
        while k < self.available_indexes.len()
            invariant
                k <= avail.len(),
                avail == self.available_indexes@,
                names_of(qf@) == single_fields(filters@),
                forall|j: int| 0 <= j < avail.len() ==> (#[trigger] avail[j]).score == 0,
                cands_ok(avail, cands@),
                compound_pass(avail, single_fields(filters@), old(cands)@, 0) == compound_pass(
                    avail,
                    single_fields(filters@),
                    cands@,
                    k as int,
                ),
            decreases avail.len() - k,
        {
            match &self.available_indexes[k].index_type {
                CandidateType::Compound { fields } => {
                    let n = count_covered(&qf, fields);
                    if n > 1 {
                        let score = self.available_indexes[k].score + 2 * (n as i128);
                        self.push_candidate(cands, k, score);
                    }
                },
                _ => {},
            }
            k = k + 1;
        }
    }

    /// Adds the candidate `(k, score)` unless its index name is present.
    fn push_candidate(&self, cands: &mut Vec<Cand>, k: usize, score: i128)
        requires
            k < self.available_indexes@.len(),
            0 <= score < 0x1_0000_0000_0000_0000_0000_0000i128,
            cands_ok(self.available_indexes@, old(cands)@),
        ensures
            cands_ok(self.available_indexes@, final(cands)@),
            final(cands)@ == add_cand(self.available_indexes@, old(cands)@, (k, score)),
    {
        let ghost avail = self.available_indexes@;
        let name = self.available_indexes[k].name.as_str();
        let mut j: usize = 0;
        while j < cands.len()
            invariant
                j <= cands@.len(),
                cands_ok(avail, cands@),
                avail == self.available_indexes@,
                k < avail.len(),
                name@ == avail[k as int].name@,
                forall|m: int| 0 <= m < j ==> cand_name(avail, #[trigger] cands@[m]) != name@,
            decreases cands.len() - j,
        {
            if str_eq(self.available_indexes[cands[j].0].name.as_str(), name) {
                assert(cand_name(avail, cands@[j as int]) == cand_name(avail, (k, score)));
                assert(has_name(avail, cands@, cand_name(avail, (k, score))));
                return;
            }
            j = j + 1;
        }
        cands.push((k, score));
    }

    /// The final score of the candidate for index `c` with base score `base`.
    fn calculate_score(&self, c: &IndexCandidate, base: i128, query: &Query) -> (r: i128)
        requires
            0 <= base < 0x1_0000_0000_0000_0000_0000_0000i128,
        ensures
            r == final_score(*c, base as int, *query),
    {
        let mut score = base;
        if c.unique && has_equality_filter(&query.filter) {
            score = score + 10;
        }
        match &query.sort {
            Some(sort) => {
                if can_help_with_sort(c, sort) {
                    score = score + 5;
                }
            },
            None => {},
        }
        if c.sparse && !has_exists_filter(&query.filter) {
            score = score - 2;
        }
        score
    }
}

impl Default for IndexSelector {
    fn default() -> (r: IndexSelector)
        ensures
            r.wf(),
            r.available_indexes@.len() == 0,
    {
        IndexSelector::new()
    }
}

/// The field of a single-field filter.
fn single_field_of(filter: &Filter) -> (r: Option<String>)
    ensures
        match r {
            Some(s) => single_field(*filter) == Some(s@),
            None => single_field(*filter) is None,
        },
{
    match filter {
        Filter::Eq { field, .. }
        | Filter::Ne { field, .. }
        | Filter::Gt { field, .. }
        | Filter::Gte { field, .. }
        | Filter::Lt { field, .. }
        | Filter::Lte { field, .. }
        | Filter::In { field, .. }
        | Filter::Nin { field, .. }
        | Filter::Exists { field, .. }
        | Filter::Regex { field, .. } => Some(field.clone()),
        _ => None,
    }
}

/// How many of the query fields the index fields cover.
fn count_covered(qf: &Vec<String>, fields: &Vec<String>) -> (r: usize)
    ensures
        r == covered(names_of(qf@), names_of(fields@)),
{
    let mut n: usize = 0;
    let mut i: usize = 0;
    while i < qf.len()
        invariant
            i <= qf.len(),
            n <= i,
            n == covered(names_of(qf@.subrange(0, i as int)), names_of(fields@)),
        decreases qf.len() - i,
    {
        let mut found = false;
        let mut j: usize = 0;
        while j < fields.len()
            invariant
                i < qf.len(),
                j <= fields.len(),
                found == exists|m: int| 0 <= m < j && fields@[m]@ == qf@[i as int]@,
            decreases fields.len() - j,
        {
            if str_eq(fields[j].as_str(), qf[i].as_str()) {
                found = true;
            }
            j = j + 1;
        }
        proof {
            let pre = names_of(qf@.subrange(0, i as int));
            let post = names_of(qf@.subrange(0, i + 1));
            assert(post.drop_last() =~= pre);
            assert(post.last() == qf@[i as int]@);
            if found {
                let m = choose|m: int| 0 <= m < fields@.len() && fields@[m]@ == qf@[i as int]@;
                assert(names_of(fields@)[m] == qf@[i as int]@);
            } else {
                assert(!names_of(fields@).contains(qf@[i as int]@)) by {
                    if names_of(fields@).contains(qf@[i as int]@) {
                        let m = choose|m: int| 0 <= m < names_of(fields@).len() && names_of(fields@)[m] == qf@[i as int]@;
                        assert(fields@[m]@ == qf@[i as int]@);
                    }
                }
            }
        }
        if found {
            n = n + 1;
        }
        i = i + 1;
    }
    assert(qf@.subrange(0, qf@.len() as int) =~= qf@);
    n
}

/// Whether the filter holds an equality condition.
#[verifier::loop_isolation(false)]
fn has_equality_filter(filter: &Filter) -> (r: bool)
    ensures
        r == has_eq(*filter),
    decreases filter,
{
    match filter {
        Filter::Eq { .. } => true,
        Filter::And(filters) | Filter::Or(filters) => {
            let mut i: usize = 0;
            assert(filters@.skip(0) =~= filters@);
            while i < filters.len()
                invariant
                    i <= filters.len(),
                    any_has_eq(filters@) == any_has_eq(filters@.skip(i as int)),
                decreases filters.len() - i,
            {
                assert(filters@.skip(i as int).drop_first() =~= filters@.skip(i + 1));
                if has_equality_filter(&filters[i]) {
                    return true;
                }
                i = i + 1;
            }
            false
        },
        Filter::Not(inner) => has_equality_filter(inner),
        _ => false,
    }
}

/// Whether the filter holds an existence condition.
#[verifier::loop_isolation(false)]
fn has_exists_filter(filter: &Filter) -> (r: bool)
    ensures
        r == has_exists(*filter),
    decreases filter,
{
    match filter {
        Filter::Exists { .. } => true,
        Filter::And(filters) | Filter::Or(filters) => {
            let mut i: usize = 0;
            assert(filters@.skip(0) =~= filters@);
            while i < filters.len()
                invariant
                    i <= filters.len(),
                    any_has_exists(filters@) == any_has_exists(filters@.skip(i as int)),
                decreases filters.len() - i,
            {
                assert(filters@.skip(i as int).drop_first() =~= filters@.skip(i + 1));
                if has_exists_filter(&filters[i]) {
                    return true;
                }
                i = i + 1;
            }
            false
        },
        Filter::Not(inner) => has_exists_filter(inner),
        _ => false,
    }
}

/// Whether the index's leading field is the first sort key.
fn can_help_with_sort(c: &IndexCandidate, sort: &Sort) -> (r: bool)
    ensures
        r == helps_sort(*c, *sort),
{
    match sort.first_field() {
        Some(first) => match &c.index_type {
            CandidateType::Single { field } => str_eq(field.as_str(), first),
            CandidateType::Compound { fields } => {
                if fields.len() > 0 {
                    str_eq(fields[0].as_str(), first)
                } else {
                    false
                }
            },
            CandidateType::Text { .. } => false,
        },
        None => false,
    }
}

} // verus!
