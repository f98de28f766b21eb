use vstd::prelude::*;
use vstd::string::*;
use vstd::utf8::{encode_utf8, encode_utf8_decode_utf8};

verus! {

/// How one test ended.
#[derive(Debug, Clone, PartialEq, Eq)]
pub enum TestResult {
    /// The test ran and passed.
    Passed,
    /// The test was not run.
    Skip,
    /// The test ran and failed, for the reason given.
    Failed(String),
}

/// One test. What a test answers is its own affair: a group takes the name
/// of a test once, when the test is added, and keeps it.
pub trait Testable {
    /// The name of the test.
    fn get_name(&self) -> String;

    /// Whether the test can run where it is.
    fn can_run(&self) -> bool;

    /// Runs the test.
    fn run(&self) -> TestResult;
}

/// A group of tests that can be run together.
pub trait TestableGroup {
    /// The name of the group.
    fn get_name(&self) -> String;

    /// Runs every test of the group.
    fn run_all(&self) -> Vec<(String, TestResult)>;

    /// Runs the tests of the group whose names are among `selected`.
    fn run_selected(&self, selected: &[&str]) -> Vec<(String, TestResult)>;
}

/// How one text stands to another in the order of texts.
#[derive(Debug, Clone, Copy, PartialEq, Eq, Structural)]
pub enum Rank {
    Before,
    Same,
    After,
}

/// `a` comes before `b` in the order of texts, which goes by their bytes: at
/// the first place at which they differ `a` has the smaller byte, or `a` ends
/// there and `b` does not.
pub open spec fn comes_before(a: Seq<u8>, b: Seq<u8>) -> bool
    decreases a.len(),
{
    if b.len() == 0 {
        false
    } else if a.len() == 0 {
        true
    } else if a[0] != b[0] {
        a[0] < b[0]
    } else {
        comes_before(a.drop_first(), b.drop_first())
    }
}

/// The bytes by which a name is ordered.
pub open spec fn key(name: Seq<char>) -> Seq<u8> {
    encode_utf8(name)
}

/// What comes before something that comes before a third comes before the
/// third.
pub proof fn lemma_before_is_transitive(a: Seq<u8>, b: Seq<u8>, c: Seq<u8>)
    requires
        comes_before(a, b),
        comes_before(b, c),
    ensures
        comes_before(a, c),
    decreases a.len(),
{
    if a.len() > 0 && a[0] == b[0] && b[0] == c[0] {
        lemma_before_is_transitive(a.drop_first(), b.drop_first(), c.drop_first());
    }
}

/// Nothing comes before itself.
pub proof fn lemma_before_is_strict(a: Seq<u8>)
    ensures
        !comes_before(a, a),
    decreases a.len(),
{
    if a.len() > 0 {
        lemma_before_is_strict(a.drop_first());
    }
}

/// Two texts that agree up to a place stand to each other as what follows
/// that place does.
proof fn lemma_skip_common(a: Seq<u8>, b: Seq<u8>, i: int)
    requires
        0 <= i <= a.len(),
        i <= b.len(),
        a.subrange(0, i) == b.subrange(0, i),
    ensures
        comes_before(a, b) == comes_before(a.skip(i), b.skip(i)),
    decreases i,
{
    if i == 0 {
        assert(a.skip(0) =~= a);
        assert(b.skip(0) =~= b);
    } else {
        assert(a[0] == a.subrange(0, i)[0]);
        assert(b[0] == b.subrange(0, i)[0]);
        assert(a.drop_first().subrange(0, i - 1) =~= a.subrange(0, i).drop_first());
        assert(b.drop_first().subrange(0, i - 1) =~= b.subrange(0, i).drop_first());
        lemma_skip_common(a.drop_first(), b.drop_first(), i - 1);
        assert(a.drop_first().skip(i - 1) =~= a.skip(i));
        assert(b.drop_first().skip(i - 1) =~= b.skip(i));
    }
}

/// Compares two texts as the order of texts does.
pub fn compare(a: &str, b: &str) -> (rank: Rank)
    ensures
        rank == Rank::Before <==> comes_before(key(a@), key(b@)),
        rank == Rank::After <==> comes_before(key(b@), key(a@)),
        rank == Rank::Same <==> a@ == b@,
{
    let x = a.as_bytes();
    let y = b.as_bytes();
    let mut i: usize = 0;
    while i < x.len() && i < y.len()
        invariant
            i <= x.len(),
            i <= y.len(),
            x@ == key(a@),
            y@ == key(b@),
            x@.subrange(0, i as int) == y@.subrange(0, i as int),
        decreases x.len() - i,
    {
        if x[i] != y[i] {
            proof {
                lemma_skip_common(x@, y@, i as int);
                lemma_skip_common(y@, x@, i as int);
                assert(x@.skip(i as int)[0] == x@[i as int]);
                assert(y@.skip(i as int)[0] == y@[i as int]);
                if a@ == b@ {
                    assert(x@[i as int] == y@[i as int]);
                }
            }
            return if x[i] < y[i] {
                Rank::Before
            } else {
                Rank::After
            };
        }
        assert(x@.subrange(0, i + 1) =~= x@.subrange(0, i as int).push(x@[i as int]));
        assert(y@.subrange(0, i + 1) =~= y@.subrange(0, i as int).push(y@[i as int]));
        i += 1;
    }
    proof {
        lemma_skip_common(x@, y@, i as int);
        lemma_skip_common(y@, x@, i as int);
        if x.len() == y.len() {
            assert(x@ =~= x@.subrange(0, i as int));
            assert(y@ =~= y@.subrange(0, i as int));
            encode_utf8_decode_utf8(a@);
            encode_utf8_decode_utf8(b@);
        }
    }
    if x.len() < y.len() {
        Rank::Before
    } else if x.len() > y.len() {
        Rank::After
    } else {
        Rank::Same
    }
}

/// A test in a group, under the name that it gave when it was added.
pub struct Entry<T> {
    pub name: String,
    pub test: T,
}

/// The tests of a list of entries, each under its name; of two entries with
/// one name the later one counts.
pub open spec fn as_map<T>(entries: Seq<Entry<T>>) -> Map<Seq<char>, T>
    decreases entries.len(),
{
    if entries.len() == 0 {
        Map::empty()
    } else {
        as_map(entries.drop_last()).insert(entries.last().name@, entries.last().test)
    }
}

/// The names of a list of entries, in order.
pub open spec fn names_of<T>(entries: Seq<Entry<T>>) -> Seq<Seq<char>> {
    entries.map_values(|e: Entry<T>| e.name@)
}

/// The names are in the order of texts, and none occurs twice.
pub open spec fn ascending(names: Seq<Seq<char>>) -> bool {
    forall|i: int, j: int|
        0 <= i < j < names.len() ==> comes_before(key(#[trigger] names[i]), key(#[trigger] names[j]))
}

/// A group with `tests` added in order, each under the name at its place in
/// `names`: a test takes the place of one of the same name, and of two such
/// in `tests` the later one stays.
pub open spec fn added<T>(
    group: Map<Seq<char>, T>,
    names: Seq<Seq<char>>,
    tests: Seq<T>,
) -> Map<Seq<char>, T>
    decreases tests.len(),
{
    if tests.len() == 0 || names.len() != tests.len() {
        group
    } else {
        added(group, names.drop_last(), tests.drop_last()).insert(names.last(), tests.last())
    }
}

/// What entries in ascending order hold as a map: each test under its name,
/// and nothing else.
pub proof fn lemma_as_map<T>(entries: Seq<Entry<T>>)
    requires
        ascending(names_of(entries)),
    ensures
        forall|i: int|
            0 <= i < entries.len() ==> as_map(entries).contains_key((#[trigger] entries[i]).name@)
                && as_map(entries)[entries[i].name@] == entries[i].test,
        forall|n: Seq<char>|
            as_map(entries).contains_key(n) ==> exists|i: int|
                0 <= i < entries.len() && (#[trigger] entries[i]).name@ == n,
    decreases entries.len(),
{
    if entries.len() > 0 {
        let front = entries.drop_last();
        let last = entries.last();
        assert forall|i: int, j: int| 0 <= i < j < front.len() implies comes_before(
            key(#[trigger] names_of(front)[i]),
            key(#[trigger] names_of(front)[j]),
        ) by {
            assert(names_of(front)[i] == names_of(entries)[i]);
            assert(names_of(front)[j] == names_of(entries)[j]);
        }
        lemma_as_map(front);
        assert forall|i: int| 0 <= i < entries.len() implies as_map(entries).contains_key(
            (#[trigger] entries[i]).name@,
        ) && as_map(entries)[entries[i].name@] == entries[i].test by {
            if i < entries.len() - 1 {
                assert(front[i] == entries[i]);
                assert(comes_before(
                    key(names_of(entries)[i]),
                    key(names_of(entries)[entries.len() - 1]),
                ));
                lemma_before_is_strict(key(last.name@));
            }
        }
        assert forall|n: Seq<char>| as_map(entries).contains_key(n) implies exists|i: int|
            0 <= i < entries.len() && (#[trigger] entries[i]).name@ == n by {
            if n == last.name@ {
                assert(entries[entries.len() - 1].name@ == n);
            } else {
                assert(as_map(front).contains_key(n));
                let i = choose|i: int| 0 <= i < front.len() && (#[trigger] front[i]).name@ == n;
                assert(front[i] == entries[i]);
                assert(entries[i].name@ == n);
            }
        }
    }
}

/// A group of tests, each known by its name. The group holds one test of a
/// name at most, and goes through its tests in the order of their names.
pub struct TestGroup<T: Testable> {
    name: String,
    tests: Vec<Entry<T>>,
}

impl<T: Testable> TestGroup<T> {
    #[verifier::type_invariant]
    spec fn well_formed(self) -> bool {
        ascending(names_of(self.tests@))
    }

    /// The name of the group.
    pub closed spec fn name(&self) -> Seq<char> {
        self.name@
    }

    /// The tests of the group, each under its name.
    pub closed spec fn tests(&self) -> Map<Seq<char>, T> {
        as_map(self.tests@)
    }

    /// The names of the tests, in the order in which the group goes through
    /// them.
    pub closed spec fn order(&self) -> Seq<Seq<char>> {
        names_of(self.tests@)
    }

    /// A group without tests.
    pub fn new(name: &str) -> (group: Self)
        ensures
            group.name() == name@,
            group.tests() == Map::<Seq<char>, T>::empty(),
            group.order() == Seq::<Seq<char>>::empty(),
    {
        let group = TestGroup { name: name.to_owned(), tests: Vec::new() };
        assert(names_of(group.tests@) =~= Seq::<Seq<char>>::empty());
        group
    }

    /// Puts a test into the group under `name`, in the place of the test of
    /// that name where there is one.
    pub fn insert(&mut self, name: String, test: T)
        ensures
            final(self).name() == old(self).name(),
            final(self).tests() == old(self).tests().insert(name@, test),
    {
        proof {
            use_type_invariant(&*self);
            lemma_as_map(self.tests@);
        }
        let ghost before = self.tests@;
        let mut entries: Vec<Entry<T>> = Vec::new();
        core::mem::swap(&mut self.tests, &mut entries);
        let mut k: usize = 0;
        let mut rank = Rank::After;
        while k < entries.len()
            invariant_except_break
                rank == Rank::After,
            invariant
                k <= entries.len(),
                entries@ == before,
                forall|i: int| 0 <= i < k ==> comes_before(key((#[trigger] before[i]).name@), key(name@)),
            ensures
                k <= entries.len(),
                entries@ == before,
                forall|i: int| 0 <= i < k ==> comes_before(key((#[trigger] before[i]).name@), key(name@)),
                k < entries.len() ==> (rank == Rank::Same <==> before[k as int].name@ == name@),
                k < entries.len() ==> (rank == Rank::Before <==> comes_before(
                    key(name@),
                    key(before[k as int].name@),
                )),
                k < entries.len() ==> rank != Rank::After,
            decreases entries.len() - k,
        {
            let found = compare(name.as_str(), entries[k].name.as_str());
            if found != Rank::After {
                rank = found;
                break ;
            }
            k += 1;
        }
        let ghost new_entry = Entry { name, test };
        if k < entries.len() && rank == Rank::Same {
            proof {
                let after = before.update(k as int, new_entry);
                assert(names_of(after) =~= names_of(before));
                lemma_update_map(before, after, k as int, new_entry);
            }
            entries.set(k, Entry { name, test });
        } else {
            proof {
                let after = before.insert(k as int, new_entry);
                assert forall|i: int, j: int| 0 <= i < j < after.len() implies comes_before(
                    key(#[trigger] names_of(after)[i]),
                    key(#[trigger] names_of(after)[j]),
                ) by {
                    lemma_insert_keeps_order(before, after, k as int, new_entry, i, j);
                }
                lemma_insert_map(before, after, k as int, new_entry);
            }
            entries.insert(k, Entry { name, test });
        }
        self.tests = entries;
    }

    /// Adds one test to the group, under the name that it gives.
    pub fn add_one(&mut self, test: T)
        ensures
            final(self).name() == old(self).name(),
            exists|name: Seq<char>| final(self).tests() == old(self).tests().insert(name, test),
    {
        let name = test.get_name();
        self.insert(name, test);
    }

    /// Adds tests to the group, in order, each under the name that it gives.
    pub fn add(&mut self, tests: Vec<T>)
        ensures
            final(self).name() == old(self).name(),
            exists|names: Seq<Seq<char>>|
                names.len() == tests.len() && final(self).tests() == added(
                    old(self).tests(),
                    names,
                    tests@,
                ),
    {
        let ghost all = tests@;
        let ghost start = self.tests();
        let mut rest = tests;
        let ghost mut names: Seq<Seq<char>> = Seq::empty();
        while rest.len() > 0
            invariant
                names.len() <= all.len(),
                rest@ == all.subrange(names.len() as int, all.len() as int),
                self.name() == old(self).name(),
                self.tests() == added(start, names, all.subrange(0, names.len() as int)),
            decreases rest.len(),
        {
            let ghost done = names.len() as int;
            let ghost so_far = self.tests();
            let test = rest.remove(0);
            assert(test == all[done]);
            self.add_one(test);
            proof {
                let name = choose|name: Seq<char>| self.tests() == so_far.insert(name, test);
                let earlier = names;
                names = names.push(name);
                assert(names.drop_last() =~= earlier);
                assert(all.subrange(0, done + 1).drop_last() =~= all.subrange(0, done));
                assert(all.subrange(0, done + 1).last() == test);
                assert(rest@ =~= all.subrange(done + 1, all.len() as int));
            }
        }
        assert(all.subrange(0, names.len() as int) =~= all);
    }

    /// The name of the group.
    pub fn get_name(&self) -> (name: String)
        ensures
            name@ == self.name(),
    {
        self.name.clone()
    }

    /// Runs every test of the group that can run, in the order of the
    /// names, and reports each test under the name that it was added under:
    /// what it gave where it ran, and that it was skipped where it could not.
    pub fn run_all(&self) -> (report: Vec<(String, TestResult)>)
        ensures
            report_names(report@) == self.order(),
            ascending(self.order()),
            forall|n: Seq<char>| self.tests().contains_key(n) <==> self.order().contains(n),
    {
        proof {
            use_type_invariant(self);
            lemma_order(self.tests@);
        }
        let mut report: Vec<(String, TestResult)> = Vec::new();
        let mut i: usize = 0;
        while i < self.tests.len()
            invariant
                i <= self.tests.len(),
                report_names(report@) == names_of(self.tests@).subrange(0, i as int),
            decreases self.tests.len() - i,
        {
            let ghost prior = report@;
            let ghost upto = names_of(self.tests@).subrange(0, i + 1);
            let line = run_one(self.tests[i].name.as_str(), &self.tests[i].test);
            report.push(line);
            proof {
                assert(upto.drop_last() =~= names_of(self.tests@).subrange(0, i as int));
                assert(upto.last() == self.tests@[i as int].name@);
                assert(report_names(report@) =~= report_names(prior).push(line.0@));
                assert(upto =~= upto.drop_last().push(upto.last()));
            }
            i += 1;
        }
        assert(names_of(self.tests@).subrange(0, i as int) =~= names_of(self.tests@));
        report
    }

    /// Runs the tests of the group whose names are among `selected`, as
    /// `run_all` runs all of them.
    pub fn run_selected(&self, selected: &[&str]) -> (report: Vec<(String, TestResult)>)
        ensures
            report_names(report@) == chosen_names(self.order(), selected@),
    {
        proof {
            use_type_invariant(self);
        }
        let ghost wanted = |n: Seq<char>| is_among(n, selected@);
        let mut report: Vec<(String, TestResult)> = Vec::new();
        let mut i: usize = 0;
        while i < self.tests.len()
            invariant
                i <= self.tests.len(),
                wanted == |n: Seq<char>| is_among(n, selected@),
                report_names(report@) == names_of(self.tests@).subrange(0, i as int).filter(wanted),
            decreases self.tests.len() - i,
        {
            let ghost upto = names_of(self.tests@).subrange(0, i + 1);
            proof {
                reveal(Seq::filter);
                assert(upto.drop_last() =~= names_of(self.tests@).subrange(0, i as int));
                assert(upto.last() == self.tests@[i as int].name@);
            }
            if among(self.tests[i].name.as_str(), selected) {
                report.push(run_one(self.tests[i].name.as_str(), &self.tests[i].test));
                assert(report_names(report@) =~= upto.filter(wanted));
            }
            i += 1;
        }
        assert(names_of(self.tests@).subrange(0, i as int) =~= names_of(self.tests@));
        report
    }
}

/// Entries in ascending order hold the names that they list, and no others.
pub proof fn lemma_order<T>(entries: Seq<Entry<T>>)
    requires
        ascending(names_of(entries)),
    ensures
        forall|n: Seq<char>| as_map(entries).contains_key(n) <==> names_of(entries).contains(n),
{
    lemma_as_map(entries);
    assert forall|n: Seq<char>| names_of(entries).contains(n) implies as_map(
        entries,
    ).contains_key(n) by {
        let i = choose|i: int| 0 <= i < names_of(entries).len() && names_of(entries)[i] == n;
        assert(entries[i].name@ == n);
    }
    assert forall|n: Seq<char>| as_map(entries).contains_key(n) implies names_of(
        entries,
    ).contains(n) by {
        let i = choose|i: int| 0 <= i < entries.len() && (#[trigger] entries[i]).name@ == n;
        assert(names_of(entries)[i] == n);
    }
}

/// The names under which a report lists its results, in order.
pub open spec fn report_names(report: Seq<(String, TestResult)>) -> Seq<Seq<char>> {
    report.map_values(|line: (String, TestResult)| line.0@)
}

/// `name` is one of `selected`.
pub open spec fn is_among(name: Seq<char>, selected: Seq<&str>) -> bool {
    exists|k: int| 0 <= k < selected.len() && (#[trigger] selected[k])@ == name
}

/// Of the names in `order`, those that are among `selected`, in the order in
/// which `order` has them.
pub open spec fn chosen_names(order: Seq<Seq<char>>, selected: Seq<&str>) -> Seq<Seq<char>> {
    order.filter(|n: Seq<char>| is_among(n, selected))
}

/// Whether `name` is one of `selected`.
pub fn among(name: &str, selected: &[&str]) -> (found: bool)
    ensures
        found == is_among(name@, selected@),
{
    let mut k: usize = 0;
    while k < selected.len()
        invariant
            k <= selected.len(),
            forall|j: int| 0 <= j < k ==> (#[trigger] selected@[j])@ != name@,
        decreases selected.len() - k,
    {
        if compare(selected[k], name) == Rank::Same {
            return true;
        }
        k += 1;
    }
    false
}

/// Runs one test if it can run, and reports it under `name`. A test that
/// cannot run is not run.
pub fn run_one<T: Testable>(name: &str, test: &T) -> (line: (String, TestResult))
    ensures
        line.0@ == name@,
{
    let ran = if test.can_run() {
        Some(test.run())
    } else {
        None
    };
    report_line(name, ran)
}

/// What is reported of a test under `name`: what its run gave where it
/// ran, and that it was skipped where it did not.
pub fn report_line(name: &str, ran: Option<TestResult>) -> (line: (String, TestResult))
    ensures
        line.0@ == name@,
        line.1 == (match ran {
            Some(result) => result,
            None => TestResult::Skip,
        }),
{
    match ran {
        Some(result) => (name.to_owned(), result),
        None => (name.to_owned(), TestResult::Skip),
    }
}

/// Entries stay in order when one is put where it belongs.
proof fn lemma_insert_keeps_order<T>(
    before: Seq<Entry<T>>,
    after: Seq<Entry<T>>,
    k: int,
    entry: Entry<T>,
    i: int,
    j: int,
)
    requires
        ascending(names_of(before)),
        0 <= k <= before.len(),
        after == before.insert(k, entry),
        forall|x: int| 0 <= x < k ==> comes_before(key((#[trigger] before[x]).name@), key(entry.name@)),
        k < before.len() ==> comes_before(key(entry.name@), key(before[k].name@)),
        0 <= i < j < after.len(),
    ensures
        comes_before(key(names_of(after)[i]), key(names_of(after)[j])),
{
    let old_i = if i < k { i } else { i - 1 };
    let old_j = if j < k { j } else { j - 1 };
    if i == k {
        assert(after[j] == before[j - 1]);
        if j - 1 > k {
            assert(comes_before(key(names_of(before)[k]), key(names_of(before)[j - 1])));
            lemma_before_is_transitive(
                key(entry.name@),
                key(before[k].name@),
                key(before[j - 1].name@),
            );
        }
    } else if j == k {
        assert(after[i] == before[i]);
    } else {
        assert(after[i] == before[old_i]);
        assert(after[j] == before[old_j]);
        assert(comes_before(key(names_of(before)[old_i]), key(names_of(before)[old_j])));
    }
}

/// Entries in order with one more put where it belongs hold what they held,
/// and the one more.
proof fn lemma_insert_map<T>(before: Seq<Entry<T>>, after: Seq<Entry<T>>, k: int, entry: Entry<T>)
    requires
        ascending(names_of(before)),
        ascending(names_of(after)),
        0 <= k <= before.len(),
        after == before.insert(k, entry),
    ensures
        as_map(after) == as_map(before).insert(entry.name@, entry.test),
{
    lemma_as_map(before);
    lemma_as_map(after);
    let goal = as_map(before).insert(entry.name@, entry.test);
    assert forall|n: Seq<char>| as_map(after).contains_key(n) <==> goal.contains_key(n) by {
        if as_map(after).contains_key(n) {
            let i = choose|i: int| 0 <= i < after.len() && (#[trigger] after[i]).name@ == n;
            if i < k {
                assert(before[i] == after[i]);
            } else if i > k {
                assert(before[i - 1] == after[i]);
            }
        }
        if goal.contains_key(n) {
            if n == entry.name@ {
                assert(after[k].name@ == n);
            } else {
                let i = choose|i: int| 0 <= i < before.len() && (#[trigger] before[i]).name@ == n;
                if i < k {
                    assert(after[i] == before[i]);
                } else {
                    assert(after[i + 1] == before[i]);
                }
            }
        }
    }
    assert forall|n: Seq<char>| as_map(after).contains_key(n) implies as_map(after)[n] == goal[n] by {
        let i = choose|i: int| 0 <= i < after.len() && (#[trigger] after[i]).name@ == n;
        if i < k {
            assert(before[i] == after[i]);
        } else if i > k {
            assert(before[i - 1] == after[i]);
        }
        if i != k && n == entry.name@ {
            assert(names_of(after)[i] == names_of(after)[k]);
            if i < k {
                assert(comes_before(key(names_of(after)[i]), key(names_of(after)[k])));
            } else {
                assert(comes_before(key(names_of(after)[k]), key(names_of(after)[i])));
            }
            lemma_before_is_strict(key(n));
        }
    }
    assert(as_map(after) =~= goal);
}

/// Entries in order with one replaced by an entry of the same name hold what
/// they held, but for the test of that name.
proof fn lemma_update_map<T>(before: Seq<Entry<T>>, after: Seq<Entry<T>>, k: int, entry: Entry<T>)
    requires
        ascending(names_of(before)),
        0 <= k < before.len(),
        before[k].name@ == entry.name@,
        after == before.update(k, entry),
    ensures
        as_map(after) == as_map(before).insert(entry.name@, entry.test),
{
    assert(names_of(after) =~= names_of(before));
    lemma_as_map(before);
    lemma_as_map(after);
    let goal = as_map(before).insert(entry.name@, entry.test);
    assert forall|n: Seq<char>| as_map(after).contains_key(n) <==> goal.contains_key(n) by {
        if as_map(after).contains_key(n) {
            let i = choose|i: int| 0 <= i < after.len() && (#[trigger] after[i]).name@ == n;
            assert(before[i].name@ == n);
        }
        if goal.contains_key(n) && n != entry.name@ {
            let i = choose|i: int| 0 <= i < before.len() && (#[trigger] before[i]).name@ == n;
            assert(after[i].name@ == n);
        }
        if n == entry.name@ {
            assert(after[k].name@ == n);
        }
    }
    assert forall|n: Seq<char>| as_map(after).contains_key(n) implies as_map(after)[n] == goal[n] by {
        let i = choose|i: int| 0 <= i < after.len() && (#[trigger] after[i]).name@ == n;
        if i != k {
            assert(after[i] == before[i]);
            if n == entry.name@ {
                assert(names_of(before)[i] == names_of(before)[k]);
                if i < k {
                    assert(comes_before(key(names_of(before)[i]), key(names_of(before)[k])));
                } else {
                    assert(comes_before(key(names_of(before)[k]), key(names_of(before)[i])));
                }
                lemma_before_is_strict(key(n));
            }
        }
    }
    assert(as_map(after) =~= goal);
}

impl<T: Testable> TestableGroup for TestGroup<T> {
    /// The name that the group was made with.
    fn get_name(&self) -> (name: String)
        ensures
            name@ == self.name(),
    {
        TestGroup::get_name(self)
    }

    /// The report of every test of the group: one line to a test, in the
    /// order of the names, each under the name that the test was added
    /// under.
    fn run_all(&self) -> (report: Vec<(String, TestResult)>)
        ensures
            report_names(report@) == self.order(),
            ascending(self.order()),
            forall|n: Seq<char>| self.tests().contains_key(n) <==> self.order().contains(n),
    {
        TestGroup::run_all(self)
    }

    /// The report of the tests of the group whose names are among
    /// `selected`: one line to such a test, in the order of the names.
    fn run_selected(&self, selected: &[&str]) -> (report: Vec<(String, TestResult)>)
        ensures
            report_names(report@) == chosen_names(self.order(), selected@),
    {
        TestGroup::run_selected(self, selected)
    }
}

} // verus!
