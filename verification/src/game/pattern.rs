//! The search for signatures in bytes, and the record of what was found.

use crate::game::signature::{signature_of, Atom, Cell, Signature};
use crate::text::same_text;
use crate::memory::Region;
use vstd::prelude::*;
use vstd::string::StringExecFns;

verus! {

/// The bytes that `atoms` ask for, in order.
pub open spec fn cells_of(atoms: Seq<Atom>) -> Seq<Cell>
    decreases atoms.len(),
{
    if atoms.len() == 0 {
        Seq::empty()
    } else {
        let before = cells_of(atoms.drop_last());
        match atoms.last() {
            Atom::Byte(b) => before.push(Cell { value: b, mask: 0xff }),
            Atom::Wildcard => before.push(Cell { value: 0, mask: 0 }),
            Atom::Masked { value, mask } => before.push(Cell { value, mask }),
            _ => before,
        }
    }
}

/// Where the capture that is open behind `atoms` began, counted in bytes of the
/// signature. A second `[` opens anew.
pub open spec fn open_capture(atoms: Seq<Atom>) -> Option<int>
    decreases atoms.len(),
{
    if atoms.len() == 0 {
        None
    } else {
        match atoms.last() {
            Atom::CaptureStart => Some(cells_of(atoms.drop_last()).len() as int),
            Atom::CaptureEnd => None,
            _ => open_capture(atoms.drop_last()),
        }
    }
}

/// The captures of `atoms`, each as the offsets of its first byte and of the
/// byte behind its last, counted in bytes of the signature. A `]` without an
/// open capture counts for nothing, and so does a capture left open.
pub open spec fn capture_spans(atoms: Seq<Atom>) -> Seq<(int, int)>
    decreases atoms.len(),
{
    if atoms.len() == 0 {
        Seq::empty()
    } else {
        let before = capture_spans(atoms.drop_last());
        match (atoms.last(), open_capture(atoms.drop_last())) {
            (Atom::CaptureEnd, Some(start)) => before.push(
                (start, cells_of(atoms.drop_last()).len() as int),
            ),
            _ => before,
        }
    }
}

/// `byte` has the bits that `cell` asks for.
pub open spec fn cell_matches(cell: Cell, byte: u8) -> bool {
    byte & cell.mask == cell.value & cell.mask
}

/// The cells match the bytes of `buf` from offset `at` on.
pub open spec fn matches_at(buf: Seq<u8>, cells: Seq<Cell>, at: int) -> bool {
    &&& 0 <= at
    &&& at + cells.len() <= buf.len()
    &&& forall|j: int| 0 <= j < cells.len() ==> cell_matches(#[trigger] cells[j], buf[at + j])
}

/// The least offset from `from` on at which the cells match.
pub open spec fn first_match(buf: Seq<u8>, cells: Seq<Cell>, from: int) -> Option<int>
    decreases buf.len() - from,
{
    if from < 0 || from + cells.len() > buf.len() {
        None
    } else if matches_at(buf, cells, from) {
        Some(from)
    } else {
        first_match(buf, cells, from + 1)
    }
}

/// The first match is a match, and there is none between `from` and it; where
/// there is no first match, there is no match from `from` on.
pub proof fn lemma_first_match_is_least(buf: Seq<u8>, cells: Seq<Cell>, from: int)
    requires
        0 <= from,
    ensures
        match first_match(buf, cells, from) {
            Some(at) => from <= at && matches_at(buf, cells, at) && forall|j: int|
                from <= j < at ==> !matches_at(buf, cells, j),
            None => forall|j: int| from <= j ==> !matches_at(buf, cells, j),
        },
    decreases buf.len() - from,
{
    if from + cells.len() <= buf.len() && !matches_at(buf, cells, from) {
        lemma_first_match_is_least(buf, cells, from + 1);
    }
}

/// The offsets below `upto` at which the cells match, in rising order.
pub open spec fn occurrences(buf: Seq<u8>, cells: Seq<Cell>, upto: int) -> Seq<int>
    decreases upto,
{
    if upto <= 0 {
        Seq::empty()
    } else {
        let before = occurrences(buf, cells, upto - 1);
        if matches_at(buf, cells, upto - 1) {
            before.push(upto - 1)
        } else {
            before
        }
    }
}

/// The offsets at which the cells match, in rising order.
pub open spec fn all_occurrences(buf: Seq<u8>, cells: Seq<Cell>) -> Seq<int> {
    occurrences(buf, cells, buf.len() as int + 1)
}

/// The offsets listed are the offsets below `upto` at which the cells match,
/// each once, the lesser before the greater.
pub proof fn lemma_occurrences_are_the_matches(buf: Seq<u8>, cells: Seq<Cell>, upto: int)
    ensures
        forall|at: int|
            #![trigger occurrences(buf, cells, upto).contains(at)]
            #![trigger matches_at(buf, cells, at)]
            occurrences(buf, cells, upto).contains(at) <==> 0 <= at < upto && matches_at(
                buf,
                cells,
                at,
            ),
        forall|i: int, j: int|
            0 <= i < j < occurrences(buf, cells, upto).len() ==> occurrences(buf, cells, upto)[i]
                < occurrences(buf, cells, upto)[j],
    decreases upto,
{
    if upto > 0 {
        lemma_occurrences_are_the_matches(buf, cells, upto - 1);
        let before = occurrences(buf, cells, upto - 1);
        let all = occurrences(buf, cells, upto);
        if matches_at(buf, cells, upto - 1) {
            assert(all == before.push(upto - 1));
            assert(all.len() == before.len() + 1);
            assert(all[before.len() as int] == upto - 1);
            assert forall|i: int| 0 <= i < before.len() implies all[i] == before[i] && 0
                <= before[i] < upto - 1 by {
                assert(before.contains(before[i]));
            }
            assert forall|at: int| all.contains(at) implies 0 <= at < upto && matches_at(
                buf,
                cells,
                at,
            ) by {
                let i = choose|i: int| 0 <= i < all.len() && all[i] == at;
                if i < before.len() {
                    assert(before.contains(before[i]));
                }
            }
            assert forall|at: int| 0 <= at < upto && matches_at(buf, cells, at) implies all.contains(
                at,
            ) by {
                if at < upto - 1 {
                    assert(before.contains(at));
                    let i = choose|i: int| 0 <= i < before.len() && before[i] == at;
                    assert(all[i] == at);
                } else {
                    assert(all[before.len() as int] == at);
                }
            }
            assert forall|i: int, j: int| 0 <= i < j < all.len() implies all[i] < all[j] by {
                assert(all[i] == before[i]);
                if j < before.len() {
                    assert(all[j] == before[j]);
                }
            }
        }
    }
}

/// One capture of a match: where its bytes stand, and the bytes.
#[derive(Clone, Debug, PartialEq, Eq)]
pub struct PatternCapture {
    pub location: u64,
    pub bytes: Vec<u8>,
}

/// One match of a signature: where it stands, and its captures in the order of
/// their closing brackets.
#[derive(Clone, Debug, PartialEq, Eq)]
pub struct PatternResult {
    pub location: u64,
    pub captures: Vec<PatternCapture>,
}

/// A capture as a value.
pub struct CaptureView {
    pub location: int,
    pub bytes: Seq<u8>,
}

/// A match as a value.
pub struct MatchView {
    pub location: int,
    pub captures: Seq<CaptureView>,
}

impl View for PatternCapture {
    type V = CaptureView;

    open spec fn view(&self) -> CaptureView {
        CaptureView { location: self.location as int, bytes: self.bytes@ }
    }
}

impl View for PatternResult {
    type V = MatchView;

    open spec fn view(&self) -> MatchView {
        MatchView {
            location: self.location as int,
            captures: Seq::new(self.captures@.len(), |i: int| self.captures@[i]@),
        }
    }
}

/// The match of `atoms` at offset `at` of `buf`, for a buffer whose first byte
/// has the address `base`.
pub open spec fn match_view(buf: Seq<u8>, atoms: Seq<Atom>, at: int, base: int) -> MatchView {
    let spans = capture_spans(atoms);
    MatchView {
        location: base + at,
        captures: Seq::new(
            spans.len(),
            |i: int|
                CaptureView {
                    location: base + at + spans[i].0,
                    bytes: buf.subrange(at + spans[i].0, at + spans[i].1),
                },
        ),
    }
}

/// What the search for `atoms` in `buf` gives: the match at the least offset.
pub open spec fn found_in(buf: Seq<u8>, atoms: Seq<Atom>, base: int) -> Option<MatchView> {
    match first_match(buf, cells_of(atoms), 0) {
        Some(at) => Some(match_view(buf, atoms, at, base)),
        None => None,
    }
}

/// A signature as the search uses it.
struct Compiled {
    cells: Vec<Cell>,
    spans: Vec<(usize, usize)>,
}

impl Compiled {
    spec fn of(&self, atoms: Seq<Atom>) -> bool {
        &&& self.cells@ == cells_of(atoms)
        &&& self.spans@.len() == capture_spans(atoms).len()
        &&& forall|i: int|
            0 <= i < self.spans@.len() ==> {
                &&& (#[trigger] self.spans@[i]).0 == capture_spans(atoms)[i].0
                &&& self.spans@[i].1 == capture_spans(atoms)[i].1
                &&& self.spans@[i].0 <= self.spans@[i].1 <= self.cells@.len()
            }
    }
}

fn compile(signature: &Signature) -> (r: Compiled)
    ensures
        r.of(signature.atoms@),
{
    let mut cells: Vec<Cell> = Vec::new();
    let mut spans: Vec<(usize, usize)> = Vec::new();
    let mut open: Option<usize> = None;
    let mut i: usize = 0;
    let ghost atoms = signature.atoms@;
    assert(atoms.take(0) =~= Seq::<Atom>::empty());
    while i < signature.atoms.len()
        invariant
            i <= atoms.len(),
            atoms == signature.atoms@,
            cells@ == cells_of(atoms.take(i as int)),
            cells@.len() <= i,
            spans@.len() == capture_spans(atoms.take(i as int)).len(),
            forall|k: int|
                0 <= k < spans@.len() ==> {
                    &&& (#[trigger] spans@[k]).0 == capture_spans(atoms.take(i as int))[k].0
                    &&& spans@[k].1 == capture_spans(atoms.take(i as int))[k].1
                    &&& spans@[k].0 <= spans@[k].1 <= cells@.len()
                },
            match open {
                Some(start) => open_capture(atoms.take(i as int)) == Some(start as int) && start
                    <= cells@.len(),
                None => open_capture(atoms.take(i as int)) is None,
            },
        decreases atoms.len() - i,
    {
        let ghost before = atoms.take(i as int);
        let ghost after = atoms.take(i + 1);
        proof {
            assert(after.drop_last() =~= before);
            assert(after.last() == atoms[i as int]);
        }
        match signature.atoms[i] {
            Atom::Byte(b) => {
                cells.push(Cell { value: b, mask: 0xff });
            },
            Atom::Wildcard => {
                cells.push(Cell { value: 0, mask: 0 });
            },
            Atom::Masked { value, mask } => {
                cells.push(Cell { value, mask });
            },
            Atom::CaptureStart => {
                open = Some(cells.len());
            },
            Atom::CaptureEnd => {
                match open {
                    Some(start) => {
                        spans.push((start, cells.len()));
                    },
                    None => {},
                }
                open = None;
            },
        }
        i += 1;
    }
    assert(atoms.take(atoms.len() as int) =~= atoms);
    Compiled { cells, spans }
}

fn matches_here(buf: &[u8], cells: &Vec<Cell>, at: usize) -> (r: bool)
    requires
        at + cells@.len() <= buf.len(),
    ensures
        r == matches_at(buf@, cells@, at as int),
{
    let mut j: usize = 0;
    while j < cells.len()
        invariant
            j <= cells@.len(),
            at + cells@.len() <= buf.len(),
            forall|k: int| 0 <= k < j ==> cell_matches(#[trigger] cells@[k], buf@[at + k]),
        decreases cells@.len() - j,
    {
        let cell = cells[j];
        let byte = buf[at + j];
        if (byte & cell.mask) != (cell.value & cell.mask) {
            assert(!cell_matches(cells@[j as int], buf@[at + j]));
            return false;
        }
        j += 1;
    }
    true
}

fn result_at(
    buf: &[u8],
    base: u64,
    compiled: &Compiled,
    at: usize,
    Ghost(atoms): Ghost<Seq<Atom>>,
) -> (r: PatternResult)
    requires
        compiled.of(atoms),
        at + compiled.cells@.len() <= buf.len(),
        base + buf.len() <= u64::MAX,
    ensures
        r@ == match_view(buf@, atoms, at as int, base as int),
{
    let mut captures: Vec<PatternCapture> = Vec::new();
    let mut i: usize = 0;
    while i < compiled.spans.len()
        invariant
            i <= compiled.spans@.len(),
            compiled.of(atoms),
            at + compiled.cells@.len() <= buf.len(),
            base + buf.len() <= u64::MAX,
            captures@.len() == i,
            forall|k: int|
                0 <= k < i ==> (#[trigger] captures@[k])@ == match_view(
                    buf@,
                    atoms,
                    at as int,
                    base as int,
                ).captures[k],
        decreases compiled.spans@.len() - i,
    {
        let span = compiled.spans[i];
        let bytes = vstd::slice::slice_to_vec(
            vstd::slice::slice_subrange(buf, at + span.0, at + span.1),
        );
        let start: u64 = (at + span.0) as u64;
        captures.push(PatternCapture { location: base + start, bytes });
        i += 1;
    }
    let found = PatternResult { location: base + at as u64, captures };
    assert(found@.captures =~= match_view(buf@, atoms, at as int, base as int).captures);
    found
}

fn search(
    buf: &[u8],
    base: u64,
    compiled: &Compiled,
    Ghost(atoms): Ghost<Seq<Atom>>,
) -> (r: Option<PatternResult>)
    requires
        compiled.of(atoms),
        base + buf.len() <= u64::MAX,
    ensures
        r is Some <==> found_in(buf@, atoms, base as int) is Some,
        r matches Some(found) ==> found_in(buf@, atoms, base as int) == Some(found@),
{
    let size = buf.len();
    let width = compiled.cells.len();
    if width > size {
        return None;
    }
    let last = size - width;
    let mut at: usize = 0;
    loop
        invariant
            at <= last,
            last == size - width,
            size == buf.len(),
            width == compiled.cells@.len(),
            compiled.of(atoms),
            base + buf.len() <= u64::MAX,
            first_match(buf@, compiled.cells@, 0) == first_match(buf@, compiled.cells@, at as int),
        decreases last - at,
    {
        if matches_here(buf, &compiled.cells, at) {
            return Some(result_at(buf, base, compiled, at, Ghost(atoms)));
        }
        if at == last {
            assert(first_match(buf@, compiled.cells@, at + 1) is None);
            return None;
        }
        at += 1;
    }
}

/// Searches `buf` for the signature and hands back the match at the least
/// offset, with offsets for locations.
pub fn scan(buf: &[u8], signature: &Signature) -> (r: Option<PatternResult>)
    ensures
        r is Some <==> found_in(buf@, signature.atoms@, 0) is Some,
        r matches Some(found) ==> found_in(buf@, signature.atoms@, 0) == Some(found@),
{
    let compiled = compile(signature);
    search(buf, 0, &compiled, Ghost(signature.atoms@))
}

/// Searches `buf` for the signature and hands back every offset at which it
/// matches, in rising order.
pub fn scan_all(buf: &[u8], signature: &Signature) -> (r: Vec<usize>)
    ensures
        r@.len() == all_occurrences(buf@, cells_of(signature.atoms@)).len(),
        forall|i: int|
            0 <= i < r@.len() ==> #[trigger] r@[i] == all_occurrences(
                buf@,
                cells_of(signature.atoms@),
            )[i],
{
    let compiled = compile(signature);
    let size = buf.len();
    let width = compiled.cells.len();
    let mut found: Vec<usize> = Vec::new();
    let ghost cells = compiled.cells@;
    if width > size {
        proof {
            lemma_no_late_occurrence(buf@, cells, 0, buf@.len() as int + 1);
        }
        return found;
    }
    let last = size - width;
    let mut at: usize = 0;
    loop
        invariant_except_break
            found@.len() == occurrences(buf@, cells, at as int).len(),
            forall|i: int|
                0 <= i < found@.len() ==> #[trigger] found@[i] == occurrences(
                    buf@,
                    cells,
                    at as int,
                )[i],
        invariant
            at <= last,
            last == size - width,
            size == buf.len(),
            width == cells.len(),
            cells == compiled.cells@,
        ensures
            at == last,
            found@.len() == occurrences(buf@, cells, at + 1).len(),
            forall|i: int|
                0 <= i < found@.len() ==> #[trigger] found@[i] == occurrences(
                    buf@,
                    cells,
                    at + 1,
                )[i],
        decreases last - at,
    {
        if matches_here(buf, &compiled.cells, at) {
            found.push(at);
        }
        if at == last {
            break ;
        }
        at += 1;
    }
    proof {
        lemma_no_late_occurrence(buf@, cells, at + 1, buf@.len() as int + 1);
    }
    found
}

/// No match stands so late in the buffer that the cells would reach past its
/// end.
proof fn lemma_no_late_occurrence(buf: Seq<u8>, cells: Seq<Cell>, from: int, upto: int)
    requires
        0 <= from <= upto,
        from + cells.len() > buf.len(),
    ensures
        occurrences(buf, cells, upto) == occurrences(buf, cells, from),
    decreases upto - from,
{
    if from < upto {
        lemma_no_late_occurrence(buf, cells, from, upto - 1);
    }
}

impl PatternCapture {
    /// A copy of this capture.
    pub fn duplicate(&self) -> (r: PatternCapture)
        ensures
            r@ == self@,
    {
        let bytes = self.bytes.clone();
        assert(bytes@ =~= self.bytes@);
        PatternCapture { location: self.location, bytes }
    }
}

impl PatternResult {
    /// A copy of this match.
    pub fn duplicate(&self) -> (r: PatternResult)
        ensures
            r@ == self@,
    {
        let mut captures: Vec<PatternCapture> = Vec::new();
        let mut i: usize = 0;
        while i < self.captures.len()
            invariant
                i <= self.captures@.len(),
                captures@.len() == i,
                forall|k: int| 0 <= k < i ==> (#[trigger] captures@[k])@ == self.captures@[k]@,
            decreases self.captures@.len() - i,
        {
            captures.push(self.captures[i].duplicate());
            i += 1;
        }
        let copy = PatternResult { location: self.location, captures };
        assert(copy@.captures =~= self@.captures);
        copy
    }
}

/// What a search gave, as a value.
pub open spec fn outcome_view(outcome: Option<PatternResult>) -> Option<MatchView> {
    match outcome {
        Some(found) => Some(found@),
        None => None,
    }
}

fn duplicate_outcome(outcome: &Option<PatternResult>) -> (r: Option<PatternResult>)
    ensures
        outcome_view(r) == outcome_view(*outcome),
{
    match outcome {
        Some(found) => Some(found.duplicate()),
        None => None,
    }
}

/// What the search for `atoms` gives in the sections from index `from` on: the
/// first match in the first section that has one, with addresses for
/// locations.
pub open spec fn found_in_sections(sections: Seq<Region<'_>>, atoms: Seq<Atom>, from: int) -> Option<
    MatchView,
>
    decreases sections.len() - from,
{
    if from < 0 || from >= sections.len() {
        None
    } else {
        match found_in(sections[from].contents(), atoms, sections[from].start()) {
            Some(found) => Some(found),
            None => found_in_sections(sections, atoms, from + 1),
        }
    }
}

/// Searches the sections in the order given and hands back the first match in
/// the first section that has one.
pub fn scan_sections(sections: &Vec<Region<'_>>, signature: &Signature) -> (r: Option<
    PatternResult,
>)
    ensures
        outcome_view(r) == found_in_sections(sections@, signature.atoms@, 0),
{
    let compiled = compile(signature);
    let mut i: usize = 0;
    while i < sections.len()
        invariant
            i <= sections@.len(),
            compiled.of(signature.atoms@),
            found_in_sections(sections@, signature.atoms@, 0) == found_in_sections(
                sections@,
                signature.atoms@,
                i as int,
            ),
        decreases sections@.len() - i,
    {
        let base = sections[i].base();
        let bytes = sections[i].bytes();
        match search(bytes, base, &compiled, Ghost(signature.atoms@)) {
            Some(found) => {
                return Some(found);
            },
            None => {},
        }
        i += 1;
    }
    None
}

/// What the search for the signature that `text` spells gives in `sections`.
/// Text that spells no signature finds nothing.
pub open spec fn resolved(sections: Seq<Region<'_>>, text: Seq<char>) -> Option<MatchView> {
    match signature_of(text) {
        Some(atoms) => found_in_sections(sections, atoms, 0),
        None => None,
    }
}

/// What one search gave, kept under the text of its signature.
#[derive(Debug)]
pub struct CacheEntry {
    pub pattern: String,
    pub result: Option<PatternResult>,
}

/// The searches made so far. A signature is searched for once; what the search
/// gave, be it a match or nothing, is what every later question gets.
#[derive(Debug)]
pub struct PatternCache {
    pub entries: Vec<CacheEntry>,
}

/// What the entries from index `from` on keep under `key`: the outcome in the
/// first entry with that text.
pub open spec fn kept_from(entries: Seq<CacheEntry>, key: Seq<char>, from: int) -> Option<
    Option<MatchView>,
>
    decreases entries.len() - from,
{
    if from < 0 || from >= entries.len() {
        None
    } else if entries[from].pattern@ == key {
        Some(outcome_view(entries[from].result))
    } else {
        kept_from(entries, key, from + 1)
    }
}

impl PatternCache {
    /// What the cache keeps under `key`.
    pub open spec fn kept(&self, key: Seq<char>) -> Option<Option<MatchView>> {
        kept_from(self.entries@, key, 0)
    }

    /// A cache that has seen no search.
    pub fn new() -> (cache: PatternCache)
        ensures
            forall|key: Seq<char>| cache.kept(key) is None,
    {
        PatternCache { entries: Vec::new() }
    }

    /// What the cache keeps under `pattern`.
    pub fn lookup(&self, pattern: &str) -> (r: Option<Option<PatternResult>>)
        ensures
            r is Some <==> self.kept(pattern@) is Some,
            r matches Some(outcome) ==> self.kept(pattern@) == Some(outcome_view(outcome)),
    {
        let mut i: usize = 0;
        while i < self.entries.len()
            invariant
                i <= self.entries@.len(),
                self.kept(pattern@) == kept_from(self.entries@, pattern@, i as int),
            decreases self.entries@.len() - i,
        {
            if same_text(self.entries[i].pattern.as_str(), pattern) {
                return Some(duplicate_outcome(&self.entries[i].result));
            }
            i += 1;
        }
        None
    }
}

/// An entry added behind the others answers for its own text where none of
/// them does, and changes no other answer.
pub proof fn lemma_kept_after_push(
    entries: Seq<CacheEntry>,
    entry: CacheEntry,
    key: Seq<char>,
    from: int,
)
    requires
        0 <= from <= entries.len(),
    ensures
        kept_from(entries.push(entry), key, from) == match kept_from(entries, key, from) {
            Some(known) => Some(known),
            None => if entry.pattern@ == key {
                Some(outcome_view(entry.result))
            } else {
                None
            },
        },
    decreases entries.len() - from,
{
    let grown = entries.push(entry);
    if from < entries.len() {
        assert(grown[from] == entries[from]);
        if entries[from].pattern@ != key {
            lemma_kept_after_push(entries, entry, key, from + 1);
        }
    } else if from == entries.len() {
        assert(grown[from] == entry);
        assert(kept_from(grown, key, from + 1) is None);
    }
}

/// Looks for the signature that `pattern` spells. The first question for a
/// pattern searches `sections`, in the order given, and keeps what it finds;
/// every later question for that pattern gets what was kept, and the sections
/// are not looked at.
pub fn match_instruction_pattern(
    cache: &mut PatternCache,
    sections: &Vec<Region<'_>>,
    pattern: &str,
) -> (r: Option<PatternResult>)
    ensures
        old(cache).kept(pattern@) matches Some(known) ==> outcome_view(r) == known && *final(cache)
            == *old(cache),
        old(cache).kept(pattern@) is None ==> outcome_view(r) == resolved(sections@, pattern@),
        final(cache).kept(pattern@) == Some(outcome_view(r)),
        forall|other: Seq<char>|
            other != pattern@ ==> final(cache).kept(other) == old(cache).kept(other),
{
    match cache.lookup(pattern) {
        Some(known) => {
            return known;
        },
        None => {},
    }
    let result = match Signature::parse(pattern) {
        Some(signature) => scan_sections(sections, &signature),
        None => None,
    };
    let entry = CacheEntry { pattern: String::from_str(pattern), result: duplicate_outcome(&result) };
    proof {
        lemma_kept_after_push(cache.entries@, entry, pattern@, 0);
        assert forall|other: Seq<char>| other != pattern@ implies kept_from(
            cache.entries@.push(entry),
            other,
            0,
        ) == kept_from(cache.entries@, other, 0) by {
            lemma_kept_after_push(cache.entries@, entry, other, 0);
        }
    }
    cache.entries.push(entry);
    result
}

/// Where the cells match at one offset of the buffer and at no other, that
/// offset is the first match, and it is the only one listed.
pub proof fn lemma_sole_occurrence(buf: Seq<u8>, cells: Seq<Cell>, at: int)
    requires
        matches_at(buf, cells, at),
        forall|other: int| other != at ==> !matches_at(buf, cells, other),
    ensures
        first_match(buf, cells, 0) == Some(at),
        all_occurrences(buf, cells) == seq![at],
{
    lemma_first_match_from(buf, cells, at, 0);
    lemma_occurrences_upto(buf, cells, at, buf.len() as int + 1);
}

proof fn lemma_first_match_from(buf: Seq<u8>, cells: Seq<Cell>, at: int, from: int)
    requires
        matches_at(buf, cells, at),
        forall|other: int| other != at ==> !matches_at(buf, cells, other),
        0 <= from <= at,
    ensures
        first_match(buf, cells, from) == Some(at),
    decreases at - from,
{
    if from < at {
        lemma_first_match_from(buf, cells, at, from + 1);
    }
}

proof fn lemma_occurrences_upto(buf: Seq<u8>, cells: Seq<Cell>, at: int, upto: int)
    requires
        matches_at(buf, cells, at),
        forall|other: int| other != at ==> !matches_at(buf, cells, other),
    ensures
        occurrences(buf, cells, upto) == if upto <= at {
            Seq::<int>::empty()
        } else {
            seq![at]
        },
    decreases upto,
{
    if upto > 0 {
        lemma_occurrences_upto(buf, cells, at, upto - 1);
        if upto - 1 == at {
            assert(Seq::<int>::empty().push(at) =~= seq![at]);
        }
    }
}

} // verus!
