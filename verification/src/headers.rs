//! Captured HTTP headers: the header lines of a message grouped by name.
//!
//! A message may carry several lines with the same header name. The captured
//! form keeps, for each name, all of its values as raw bytes (no encoding
//! guarantees), in the order the lines appeared.

use vstd::prelude::*;

verus! {

/// A header line seen abstractly: its name and its raw value.
pub open spec fn line_view(line: (String, Vec<u8>)) -> (Seq<char>, Seq<u8>) {
    (line.0@, line.1@)
}

/// Header lines seen abstractly.
pub open spec fn lines_view(lines: Seq<(String, Vec<u8>)>) -> Seq<(Seq<char>, Seq<u8>)> {
    lines.map_values(|line: (String, Vec<u8>)| line_view(line))
}

/// The values of the lines named `name`, in the order of the lines.
pub open spec fn values_named(lines: Seq<(Seq<char>, Seq<u8>)>, name: Seq<char>) -> Seq<Seq<u8>>
    decreases lines.len(),
{
    if lines.len() == 0 {
        Seq::empty()
    } else {
        let rest = values_named(lines.drop_last(), name);
        if lines.last().0 == name {
            rest.push(lines.last().1)
        } else {
            rest
        }
    }
}

/// Whether some line is named `name`.
pub open spec fn has_line_named(lines: Seq<(Seq<char>, Seq<u8>)>, name: Seq<char>) -> bool {
    exists|i: int| 0 <= i < lines.len() && lines[i].0 == name
}

/// The header lines grouped by name: each name that occurs maps to the values
/// of its lines, in order.
pub open spec fn group_lines(lines: Seq<(Seq<char>, Seq<u8>)>) -> Map<Seq<char>, Seq<Seq<u8>>> {
    Map::new(|name: Seq<char>| has_line_named(lines, name), |name: Seq<char>| values_named(lines, name))
}

/// Whether a line is named exactly `name`.
pub open spec fn line_named(name: Seq<char>) -> spec_fn((Seq<char>, Seq<u8>)) -> bool {
    |line: (Seq<char>, Seq<u8>)| line.0 == name
}

/// The values of the lines, in order.
pub open spec fn values_of_lines(lines: Seq<(Seq<char>, Seq<u8>)>) -> Seq<Seq<u8>> {
    lines.map_values(|line: (Seq<char>, Seq<u8>)| line.1)
}

/// Whether some line is named exactly `name` and has the value `value`.
pub open spec fn comes_from_line_named(
    lines: Seq<(Seq<char>, Seq<u8>)>,
    name: Seq<char>,
    value: Seq<u8>,
) -> bool {
    exists|i: int| 0 <= i < lines.len() && lines[i].0 == name && lines[i].1 == value
}

/// The values of the lines named exactly `name`, in line order, are the values
/// of the lines that a filter on exactly that name keeps; every one of them
/// comes from a line with exactly that name, and there are as many as such lines.
pub proof fn lemma_values_named_exactly(lines: Seq<(Seq<char>, Seq<u8>)>, name: Seq<char>)
    ensures
        values_named(lines, name) == values_of_lines(lines.filter(line_named(name))),
        values_named(lines, name).len() == lines.filter(line_named(name)).len(),
        forall|k: int|
            0 <= k < values_named(lines, name).len() ==> comes_from_line_named(
                lines,
                name,
                #[trigger] values_named(lines, name)[k],
            ),
    decreases lines.len(),
{
    reveal(Seq::filter);
    if lines.len() > 0 {
        let rest = lines.drop_last();
        lemma_values_named_exactly(rest, name);
        if lines.last().0 == name {
            assert(lines.filter(line_named(name)) == rest.filter(line_named(name)).push(lines.last()));
            assert(values_of_lines(lines.filter(line_named(name))) =~= values_of_lines(
                rest.filter(line_named(name)),
            ).push(lines.last().1));
        } else {
            assert(lines.filter(line_named(name)) == rest.filter(line_named(name)));
        }
        assert forall|k: int| 0 <= k < values_named(lines, name).len() implies comes_from_line_named(
            lines,
            name,
            #[trigger] values_named(lines, name)[k],
        ) by {
            if k < values_named(rest, name).len() {
                assert(values_named(lines, name)[k] == values_named(rest, name)[k]);
                assert(comes_from_line_named(rest, name, values_named(rest, name)[k]));
                let i = choose|i: int|
                    0 <= i < rest.len() && rest[i].0 == name && rest[i].1 == values_named(rest, name)[k];
                assert(lines[i] == rest[i]);
            } else {
                let i = lines.len() - 1;
                assert(lines[i] == lines.last());
                assert(lines[i].0 == name && lines[i].1 == values_named(lines, name)[k]);
            }
        }
    } else {
        assert(values_named(lines, name).len() == 0);
    }
}

/// Grouping files each value under the exact name of its line: a name is a
/// key exactly when some line has that name, and its values are those of the
/// lines with exactly that name, in line order, as many as there are such lines.
pub proof fn lemma_group_lines_exact(lines: Seq<(Seq<char>, Seq<u8>)>, name: Seq<char>)
    ensures
        group_lines(lines).contains_key(name) <==> exists|i: int| 0 <= i < lines.len() && lines[i].0 == name,
        group_lines(lines).contains_key(name) ==> group_lines(lines)[name] == values_of_lines(lines.filter(line_named(name))),
        group_lines(lines).contains_key(name) ==> group_lines(lines)[name].len() == lines.filter(
            line_named(name),
        ).len(),
{
    lemma_values_named_exactly(lines, name);
}

/// The distinct names of the lines, in the order each first appears.
pub open spec fn first_names(lines: Seq<(Seq<char>, Seq<u8>)>) -> Seq<Seq<char>>
    decreases lines.len(),
{
    if lines.len() == 0 {
        Seq::empty()
    } else {
        let rest = first_names(lines.drop_last());
        if rest.contains(lines.last().0) {
            rest
        } else {
            rest.push(lines.last().0)
        }
    }
}

/// The names of the entries, in order.
pub open spec fn entry_names(entries: Seq<HeaderEntry>) -> Seq<Seq<char>> {
    entries.map_values(|e: HeaderEntry| e.name_view())
}

/// Whether one of the entries is named `name`.
pub open spec fn has_entry_named(entries: Seq<HeaderEntry>, name: Seq<char>) -> bool {
    exists|j: int| 0 <= j < entries.len() && entries[j].name_view() == name
}

/// All values of one header name.
#[derive(Debug)]
pub struct HeaderEntry {
    name: String,
    values: Vec<Vec<u8>>,
}

impl HeaderEntry {
    /// The values of the entry, seen abstractly.
    pub closed spec fn values_view(&self) -> Seq<Seq<u8>> {
        self.values@.map_values(|v: Vec<u8>| v@)
    }

    /// The header name.
    pub closed spec fn name_view(&self) -> Seq<char> {
        self.name@
    }

    /// The header name.
    pub fn name(&self) -> (name: &String)
        ensures
            name@ == self.name_view(),
    {
        &self.name
    }

    /// The values of the header, in the order of its lines.
    pub fn values(&self) -> (values: &Vec<Vec<u8>>)
        ensures
            values@.map_values(|v: Vec<u8>| v@) == self.values_view(),
    {
        &self.values
    }
}

/// The headers of a captured message, grouped by name.
#[derive(Debug)]
pub struct CapturedHeaders {
    entries: Vec<HeaderEntry>,
}

impl CapturedHeaders {
    /// Whether the entry at `j` is named `name`.
    pub closed spec fn entry_named(&self, j: int, name: Seq<char>) -> bool {
        0 <= j < self.entries@.len() && self.entries@[j].name_view() == name
    }

    /// Each name appears in at most one entry.
    #[verifier::type_invariant]
    closed spec fn well_formed(&self) -> bool {
        forall|j: int, k: int|
            0 <= j < self.entries@.len() && 0 <= k < self.entries@.len() && j != k
                ==> self.entries@[j].name_view() != self.entries@[k].name_view()
    }

    /// The header names, in the order each first appeared.
    pub closed spec fn names(&self) -> Seq<Seq<char>> {
        entry_names(self.entries@)
    }

    /// The headers as a map from name to the values of that name.
    pub closed spec fn view(&self) -> Map<Seq<char>, Seq<Seq<u8>>> {
        Map::new(
            |name: Seq<char>| exists|j: int| self.entry_named(j, name),
            |name: Seq<char>| self.entries@[choose|j: int| self.entry_named(j, name)].values_view(),
        )
    }

    /// No headers at all.
    pub fn new() -> (h: Self)
        ensures
            h.view() == Map::<Seq<char>, Seq<Seq<u8>>>::empty(),
            h.names() == Seq::<Seq<char>>::empty(),
    {
        let h = CapturedHeaders { entries: Vec::new() };
        assert(h.view() =~= Map::<Seq<char>, Seq<Seq<u8>>>::empty());
        assert(h.names() =~= Seq::<Seq<char>>::empty());
        h
    }

    /// Groups header lines by name: each name that occurs in `lines` gets all
    /// the values of its lines, in the order of the lines.
    pub fn from_lines(lines: &Vec<(String, Vec<u8>)>) -> (h: Self)
        ensures
            h.view() == group_lines(lines_view(lines@)),
            h.names() == first_names(lines_view(lines@)),
            forall|name: Seq<char>|
                #[trigger] h.view().contains_key(name) ==> h.view()[name] == values_of_lines(
                    lines_view(lines@).filter(line_named(name)),
                ),
    {
        let ghost all = lines_view(lines@);
        let mut entries: Vec<HeaderEntry> = Vec::new();
        let mut i: usize = 0;
        while i < lines.len()
            invariant
                all == lines_view(lines@),
                0 <= i <= lines@.len(),
                forall|j: int, k: int|
                    0 <= j < entries@.len() && 0 <= k < entries@.len() && j != k
                        ==> entries@[j].name_view() != entries@[k].name_view(),
                forall|j: int|
                    0 <= j < entries@.len() ==> #[trigger] entries@[j].values_view()
                        == values_named(all, entries@[j].name_view()),
                forall|name: Seq<char>|
                    #[trigger] has_entry_named(entries@, name) <==> has_line_named(
                        all.subrange(0, i as int),
                        name,
                    ),
                entry_names(entries@) == first_names(all.subrange(0, i as int)),
            decreases lines@.len() - i,
        {
            let name = &lines[i].0;
            let known = position_of(&entries, name);
            let ghost before = entries@;
            let ghost prefix = all.subrange(0, i as int);
            let ghost next = all.subrange(0, i + 1);
            proof {
                assert(next.drop_last() =~= prefix);
                assert(next.last() == all[i as int]);
                assert(entry_names(before).contains(all[i as int].0) <==> has_entry_named(
                    before,
                    all[i as int].0,
                )) by {
                    if has_entry_named(before, all[i as int].0) {
                        let j = choose|j: int|
                            0 <= j < before.len() && before[j].name_view() == all[i as int].0;
                        assert(entry_names(before)[j] == all[i as int].0);
                    }
                }
            }
            if known.is_none() {
                let values = collect_values(lines, name);
                let entry = HeaderEntry { name: name.clone(), values };
                entries.push(entry);
                assert(entry_names(entries@) =~= entry_names(before).push(all[i as int].0));
                assert forall|n: Seq<char>|
                    #[trigger] has_entry_named(entries@, n) <==> has_line_named(next, n) by {
                    if has_line_named(next, n) {
                        let k = choose|k: int| 0 <= k < next.len() && next[k].0 == n;
                        if k < i {
                            assert(prefix[k] == next[k]);
                            assert(has_line_named(prefix, n));
                            assert(has_entry_named(before, n));
                            let j = choose|j: int| 0 <= j < before.len() && before[j].name_view() == n;
                            assert(entries@[j] == before[j]);
                        } else {
                            assert(entries@[before.len() as int].name_view() == n);
                        }
                    }
                    if has_entry_named(entries@, n) {
                        let j = choose|j: int| 0 <= j < entries@.len() && entries@[j].name_view() == n;
                        if j < before.len() {
                            assert(before[j] == entries@[j]);
                            assert(has_entry_named(before, n));
                            let k = choose|k: int| 0 <= k < prefix.len() && prefix[k].0 == n;
                            assert(next[k] == prefix[k]);
                        } else {
                            assert(next[i as int].0 == n);
                        }
                    }
                }
            } else {
                let ghost j = known->0 as int;
                assert forall|n: Seq<char>|
                    #[trigger] has_entry_named(entries@, n) <==> has_line_named(next, n) by {
                    if has_line_named(next, n) {
                        let k = choose|k: int| 0 <= k < next.len() && next[k].0 == n;
                        if k == i {
                            assert(entries@[j].name_view() == n);
                        } else {
                            assert(prefix[k] == next[k]);
                            assert(has_line_named(prefix, n));
                        }
                    }
                    if has_entry_named(entries@, n) {
                        assert(has_line_named(prefix, n));
                        let k = choose|k: int| 0 <= k < prefix.len() && prefix[k].0 == n;
                        assert(next[k] == prefix[k]);
                    }
                }
            }
            i = i + 1;
        }
        assert(all.subrange(0, lines@.len() as int) =~= all);
        let h = CapturedHeaders { entries };
        assert(h.names() == first_names(all));
        assert(h.view() =~= group_lines(all)) by {
            assert forall|name: Seq<char>|
                h.view().contains_key(name) <==> #[trigger] group_lines(all).contains_key(name) by {
                if group_lines(all).contains_key(name) {
                    assert(has_entry_named(h.entries@, name));
                    let j = choose|j: int| 0 <= j < h.entries@.len() && h.entries@[j].name_view() == name;
                    assert(h.entry_named(j, name));
                }
                if h.view().contains_key(name) {
                    let j = choose|j: int| h.entry_named(j, name);
                    assert(has_entry_named(h.entries@, name));
                }
            }
            assert forall|name: Seq<char>| #[trigger] h.view().contains_key(name)
                implies h.view()[name] == group_lines(all)[name] by {
                let j = choose|j: int| h.entry_named(j, name);
                assert(h.entries@[j].values_view() == values_named(all, name));
                assert(group_lines(all).contains_key(name));
            }
        }
        assert forall|name: Seq<char>| #[trigger] h.view().contains_key(name) implies h.view()[name]
            == values_of_lines(all.filter(line_named(name))) by {
            lemma_group_lines_exact(all, name);
            assert(h.view() == group_lines(all));
            assert(group_lines(all).contains_key(name));
            assert(h.view()[name] == group_lines(all)[name]);
        }
        h
    }

    /// The number of distinct header names.
    pub fn len(&self) -> (n: usize)
        ensures
            n == self.view().dom().len(),
    {
        proof {
            use_type_invariant(self);
            self.lemma_dom_len();
        }
        self.entries.len()
    }

    proof fn lemma_dom_len(&self)
        requires
            self.well_formed(),
        ensures
            self.view().dom().finite(),
            self.view().dom().len() == self.entries@.len(),
    {
        let names = self.entries@.map_values(|e: HeaderEntry| e.name_view());
        assert(names.no_duplicates()) by {
            assert forall|j: int, k: int| 0 <= j < names.len() && 0 <= k < names.len() && j != k
                implies names[j] != names[k] by {
                assert(names[j] == self.entries@[j].name_view());
                assert(names[k] == self.entries@[k].name_view());
            }
        }
        assert(self.view().dom() =~= names.to_set()) by {
            assert forall|n: Seq<char>| self.view().dom().contains(n) <==> names.to_set().contains(n) by {
                if names.to_set().contains(n) {
                    let j = choose|j: int| 0 <= j < names.len() && names[j] == n;
                    assert(self.entry_named(j, n));
                }
                if self.view().dom().contains(n) {
                    let j = choose|j: int| self.entry_named(j, n);
                    assert(names[j] == n);
                }
            }
        }
        names.unique_seq_to_set();
    }

    /// The values of the header named `name`, if there is one.
    pub fn get(&self, name: &str) -> (values: Option<&Vec<Vec<u8>>>)
        ensures
            match values {
                Some(vs) => self.view().contains_key(name@) && vs@.map_values(|v: Vec<u8>| v@)
                    == self.view()[name@],
                None => !self.view().contains_key(name@),
            },
    {
        proof {
            use_type_invariant(self);
        }
        let wanted = name.to_owned();
        let mut j: usize = 0;
        while j < self.entries.len()
            invariant
                wanted@ == name@,
                self.well_formed(),
                0 <= j <= self.entries@.len(),
                forall|k: int| 0 <= k < j ==> self.entries@[k].name_view() != name@,
            decreases self.entries@.len() - j,
        {
            if self.entries[j].name == wanted {
                proof {
                    assert(self.entry_named(j as int, name@));
                    let c = choose|k: int| self.entry_named(k, name@);
                    assert(self.entry_named(c, name@));
                    assert(self.entries@[c].name_view() == self.entries@[j as int].name_view());
                    assert(c == j as int);
                }
                return Some(&self.entries[j].values);
            }
            j = j + 1;
        }
        None
    }

    /// The entries, one per distinct name, in the order each name first appeared.
    pub fn entries(&self) -> (entries: &Vec<HeaderEntry>)
        ensures
            entry_names(entries@) == self.names(),
            forall|j: int|
                0 <= j < entries@.len() ==> self.view().contains_key(#[trigger] entries@[j].name_view())
                    && self.view()[entries@[j].name_view()] == entries@[j].values_view(),
            forall|name: Seq<char>|
                #[trigger] self.view().contains_key(name) ==> exists|j: int|
                    0 <= j < entries@.len() && entries@[j].name_view() == name,
    {
        proof {
            use_type_invariant(self);
        }
        assert forall|j: int| 0 <= j < self.entries@.len() implies self.view().contains_key(
            #[trigger] self.entries@[j].name_view(),
        ) && self.view()[self.entries@[j].name_view()] == self.entries@[j].values_view() by {
            let name = self.entries@[j].name_view();
            assert(self.entry_named(j, name));
            let c = choose|k: int| self.entry_named(k, name);
            assert(c == j);
        }
        &self.entries
    }
}

impl Clone for HeaderEntry {
    /// A copy with the same name and values.
    fn clone(&self) -> (c: Self)
        ensures
            c.name_view() == self.name_view(),
            c.values_view() == self.values_view(),
    {
        let mut values: Vec<Vec<u8>> = Vec::new();
        let mut i: usize = 0;
        while i < self.values.len()
            invariant
                0 <= i <= self.values@.len(),
                values@.len() == i,
                forall|k: int| 0 <= k < i ==> #[trigger] values@[k]@ == self.values@[k]@,
            decreases self.values@.len() - i,
        {
            let copied = copy_bytes(&self.values[i]);
            values.push(copied);
            i = i + 1;
        }
        assert(values@.map_values(|v: Vec<u8>| v@) =~= self.values_view());
        HeaderEntry { name: self.name.clone(), values }
    }
}

impl Clone for CapturedHeaders {
    /// A copy with the same headers.
    fn clone(&self) -> (c: Self)
        ensures
            c.view() == self.view(),
            c.names() == self.names(),
    {
        proof {
            use_type_invariant(self);
        }
        let mut entries: Vec<HeaderEntry> = Vec::new();
        let mut i: usize = 0;
        while i < self.entries.len()
            invariant
                0 <= i <= self.entries@.len(),
                entries@.len() == i,
                forall|j: int|
                    0 <= j < i ==> #[trigger] entries@[j].name_view() == self.entries@[j].name_view()
                        && entries@[j].values_view() == self.entries@[j].values_view(),
            decreases self.entries@.len() - i,
        {
            entries.push(self.entries[i].clone());
            i = i + 1;
        }
        let c = CapturedHeaders { entries };
        assert forall|name: Seq<char>, j: int|
            c.entry_named(j, name) <==> #[trigger] self.entry_named(j, name) by {}
        assert forall|name: Seq<char>| #[trigger] self.view().contains_key(name) implies c.view().contains_key(name)
            && c.view()[name] == self.view()[name] by {
            let j2 = choose|k: int| self.entry_named(k, name);
            assert(c.entry_named(j2, name));
            let j1 = choose|k: int| c.entry_named(k, name);
            assert(self.entry_named(j1, name));
            assert(self.entries@[j1].name_view() == self.entries@[j2].name_view());
            assert(j1 == j2);
        }
        assert forall|name: Seq<char>| #[trigger] c.view().contains_key(name) implies self.view().contains_key(name) by {
            let j1 = choose|k: int| c.entry_named(k, name);
            assert(self.entry_named(j1, name));
        }
        assert(c.view() =~= self.view());
        assert(c.names() =~= self.names());
        c
    }
}

/// The index of the entry named `name`, if there is one.
fn position_of(entries: &Vec<HeaderEntry>, name: &String) -> (pos: Option<usize>)
    ensures
        match pos {
            Some(j) => j < entries@.len() && entries@[j as int].name_view() == name@,
            None => forall|j: int| 0 <= j < entries@.len() ==> entries@[j].name_view() != name@,
        },
{
    let mut j: usize = 0;
    while j < entries.len()
        invariant
            0 <= j <= entries@.len(),
            forall|k: int| 0 <= k < j ==> entries@[k].name_view() != name@,
        decreases entries@.len() - j,
    {
        if entries[j].name == *name {
            return Some(j);
        }
        j = j + 1;
    }
    None
}

/// A copy of a byte vector.
fn copy_bytes(v: &Vec<u8>) -> (c: Vec<u8>)
    ensures
        c@ == v@,
{
    let mut c: Vec<u8> = Vec::new();
    let mut i: usize = 0;
    while i < v.len()
        invariant
            0 <= i <= v@.len(),
            c@ == v@.subrange(0, i as int),
        decreases v@.len() - i,
    {
        c.push(v[i]);
        i = i + 1;
        assert(c@ =~= v@.subrange(0, i as int));
    }
    assert(c@ =~= v@);
    c
}

/// The values of the lines named `name`, in the order of the lines.
fn collect_values(lines: &Vec<(String, Vec<u8>)>, name: &String) -> (values: Vec<Vec<u8>>)
    ensures
        values@.map_values(|v: Vec<u8>| v@) == values_named(lines_view(lines@), name@),
        values@.map_values(|v: Vec<u8>| v@) == values_of_lines(
            lines_view(lines@).filter(line_named(name@)),
        ),
{
    let ghost all = lines_view(lines@);
    let mut values: Vec<Vec<u8>> = Vec::new();
    let mut i: usize = 0;
    while i < lines.len()
        invariant
            all == lines_view(lines@),
            0 <= i <= lines@.len(),
            values@.map_values(|v: Vec<u8>| v@) == values_named(all.subrange(0, i as int), name@),
        decreases lines@.len() - i,
    {
        let ghost prefix = all.subrange(0, i as int);
        let ghost next = all.subrange(0, i + 1);
        assert(next.drop_last() =~= prefix);
        assert(next.last() == all[i as int]);
        if lines[i].0 == *name {
            let v = copy_bytes(&lines[i].1);
            values.push(v);
            assert(values@.map_values(|v: Vec<u8>| v@) =~= values_named(prefix, name@).push(
                all[i as int].1,
            ));
        }
        i = i + 1;
    }
    assert(all.subrange(0, lines@.len() as int) =~= all);
    proof {
        lemma_values_named_exactly(all, name@);
    }
    values
}

} // verus!
