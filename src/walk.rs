//! The traversal engine's decisions. A directory is named by the names of
//! the directories on the way to it from the root, so the root itself is the
//! empty path. Whoever lists directories hands each listing to a
//! `Traversal`, which says which units of work it yields and which
//! directories are still to be visited.

use vstd::prelude::*;

use crate::cmd::Platform;
use crate::conf::{resolve, Config, Plan, PlanView};
use crate::error::{Error, IoFault};
use crate::text::views;

verus! {

/// One entry of a listed directory.
#[derive(Debug)]
pub struct Entry {
    pub name: String,
    /// The entry is a directory, or a link to one.
    pub is_dir: bool,
}

pub struct EntryView {
    pub name: Seq<char>,
    pub is_dir: bool,
}

impl View for Entry {
    type V = EntryView;

    open spec fn view(&self) -> EntryView {
        EntryView { name: self.name@, is_dir: self.is_dir }
    }
}

/// A unit of work: a plan and the directory that it is carried out in.
#[derive(Debug)]
pub struct Unit {
    pub plan: Plan,
    pub dir: Vec<String>,
}

pub struct UnitView {
    pub plan: PlanView,
    pub dir: Seq<Seq<char>>,
}

impl View for Unit {
    type V = UnitView;

    open spec fn view(&self) -> UnitView {
        UnitView { plan: self.plan@, dir: views(self.dir@) }
    }
}

/// The views of a sequence of entries.
pub open spec fn entry_views(v: Seq<Entry>) -> Seq<EntryView> {
    v.map_values(|e: Entry| e@)
}

/// The views of a sequence of units.
pub open spec fn unit_views(v: Seq<Unit>) -> Seq<UnitView> {
    v.map_values(|u: Unit| u@)
}

/// The views of a sequence of directory paths.
pub open spec fn dir_views(v: Seq<Vec<String>>) -> Seq<Seq<Seq<char>>> {
    v.map_values(|d: Vec<String>| views(d@))
}

/// The plans that the entries of a directory resolve to, in their order.
pub open spec fn matched_plans(
    rules: Seq<(Seq<char>, PlanView)>,
    entries: Seq<EntryView>,
    platform: Platform,
) -> Seq<PlanView>
    decreases entries.len(),
{
    if entries.len() == 0 {
        Seq::empty()
    } else {
        let init = matched_plans(rules, entries.drop_last(), platform);
        match resolve(rules, entries.last().name, entries.last().is_dir, platform) {
            Some(p) => init.push(p),
            None => init,
        }
    }
}

/// The names of the entries that are directories, in their order.
pub open spec fn subdirs(entries: Seq<EntryView>) -> Seq<Seq<char>>
    decreases entries.len(),
{
    if entries.len() == 0 {
        Seq::empty()
    } else if entries.last().is_dir {
        subdirs(entries.drop_last()).push(entries.last().name)
    } else {
        subdirs(entries.drop_last())
    }
}

/// The units of work that a directory with these entries yields: one for
/// each entry that resolves to a plan, carried out in that directory.
pub open spec fn units_of(
    rules: Seq<(Seq<char>, PlanView)>,
    dir: Seq<Seq<char>>,
    entries: Seq<EntryView>,
    platform: Platform,
) -> Seq<UnitView> {
    matched_plans(rules, entries, platform).map_values(|p: PlanView| UnitView { plan: p, dir })
}

/// The subdirectories still to visit after a directory with these entries:
/// none where an entry matched, else every subdirectory.
pub open spec fn descent_of(
    rules: Seq<(Seq<char>, PlanView)>,
    dir: Seq<Seq<char>>,
    entries: Seq<EntryView>,
    platform: Platform,
) -> Seq<Seq<Seq<char>>> {
    if matched_plans(rules, entries, platform).len() == 0 {
        subdirs(entries).map_values(|name: Seq<char>| dir.push(name))
    } else {
        Seq::empty()
    }
}

/// A copy of a directory path.
pub(crate) fn copy_path(dir: &Vec<String>) -> (r: Vec<String>)
    ensures
        views(r@) == views(dir@),
{
    let r = crate::cmd::copy_strings(dir);
    r
}

/// The units of work that the directory `dir` yields and the subdirectories
/// still to visit below it, given its entries.
pub fn plan_directory(
    config: &Config,
    dir: &Vec<String>,
    entries: &Vec<Entry>,
    platform: Platform,
) -> (r: (Vec<Unit>, Vec<Vec<String>>))
    ensures
        unit_views(r.0@) == units_of(config@, views(dir@), entry_views(entries@), platform),
        dir_views(r.1@) == descent_of(config@, views(dir@), entry_views(entries@), platform),
{
    let ghost d = views(dir@);
    let ghost all = entry_views(entries@);
    let mut units: Vec<Unit> = Vec::new();
    let mut names: Vec<&String> = Vec::new();
    let mut i: usize = 0;
    assert(all.take(0) =~= Seq::<EntryView>::empty());
    assert(unit_views(units@) =~= units_of(config@, d, all.take(0), platform));
    while i < entries.len()
        invariant
            i <= entries@.len(),
            all == entry_views(entries@),
            d == views(dir@),
            unit_views(units@) == units_of(config@, d, all.take(i as int), platform),
            names@.map_values(|s: &String| s@) == subdirs(all.take(i as int)),
        decreases entries@.len() - i,
    {
        let e = &entries[i];
        let ghost prefix = all.take(i as int);
        assert(all.take(i + 1).drop_last() =~= prefix);
        assert(all.take(i + 1).last() == e@);
        let ghost before = unit_views(units@);
        let ghost before_names = names@.map_values(|s: &String| s@);
        match config.parse(e.name.as_str(), e.is_dir, platform) {
            Some(plan) => {
                units.push(Unit { plan, dir: copy_path(dir) });
                assert(unit_views(units@) =~= before.push(UnitView { plan: plan@, dir: d }));
                assert(matched_plans(config@, all.take(i + 1), platform) =~= matched_plans(
                    config@,
                    prefix,
                    platform,
                ).push(plan@));
            },
            None => {},
        }
        assert(unit_views(units@) =~= units_of(config@, d, all.take(i + 1), platform));
        if e.is_dir {
            names.push(&e.name);
            assert(names@.map_values(|s: &String| s@) =~= before_names.push(e.name@));
        }
        i = i + 1;
    }
    assert(all.take(i as int) =~= all);
    let mut descend: Vec<Vec<String>> = Vec::new();
    if units.len() == 0 {
        let ghost subs = subdirs(all);
        let mut j: usize = 0;
        while j < names.len()
            invariant
                j <= names@.len(),
                names@.map_values(|s: &String| s@) == subs,
                d == views(dir@),
                dir_views(descend@) == subs.take(j as int).map_values(
                    |name: Seq<char>| d.push(name),
                ),
            decreases names@.len() - j,
        {
            let mut path = copy_path(dir);
            path.push(names[j].clone());
            let ghost before = dir_views(descend@);
            assert(views(path@) =~= d.push(subs[j as int]));
            descend.push(path);
            assert(dir_views(descend@) =~= before.push(d.push(subs[j as int])));
            assert(subs.take(j + 1).map_values(|name: Seq<char>| d.push(name)) =~= subs.take(
                j as int,
            ).map_values(|name: Seq<char>| d.push(name)).push(d.push(subs[j as int])));
            j = j + 1;
        }
        assert(subs.take(j as int) =~= subs);
    }
    assert(dir_views(descend@) =~= descent_of(config@, d, all, platform));
    (units, descend)
}

/// Where an entry of a directory resolves to a plan, that directory yields a
/// unit of work with that plan, carried out in the directory itself, and
/// nothing below it is visited.
pub proof fn lemma_marker_cleaned_in_place(
    rules: Seq<(Seq<char>, PlanView)>,
    dir: Seq<Seq<char>>,
    entries: Seq<EntryView>,
    platform: Platform,
    i: int,
)
    requires
        0 <= i < entries.len(),
        resolve(rules, entries[i].name, entries[i].is_dir, platform) is Some,
    ensures
        units_of(rules, dir, entries, platform).contains(
            UnitView {
                plan: resolve(rules, entries[i].name, entries[i].is_dir, platform)->Some_0,
                dir,
            },
        ),
        descent_of(rules, dir, entries, platform) == Seq::<Seq<Seq<char>>>::empty(),
    decreases entries.len(),
{
    let p = resolve(rules, entries[i].name, entries[i].is_dir, platform)->Some_0;
    let u = UnitView { plan: p, dir };
    let plans = matched_plans(rules, entries, platform);
    if i == entries.len() - 1 {
        assert(plans.last() == p);
        assert(units_of(rules, dir, entries, platform)[plans.len() - 1] == u);
    } else {
        let init = entries.drop_last();
        assert(init[i] == entries[i]);
        lemma_marker_cleaned_in_place(rules, dir, init, platform, i);
        let k = choose|k: int|
            0 <= k < units_of(rules, dir, init, platform).len() && units_of(
                rules,
                dir,
                init,
                platform,
            )[k] == u;
        assert(units_of(rules, dir, entries, platform)[k] == u);
    }
}

/// The directories still to visit in a walk of a tree, and the decisions
/// taken as each one is listed. Directories are visited depth first.
#[derive(Debug)]
pub struct Traversal {
    pending: Vec<Vec<String>>,
}

impl View for Traversal {
    type V = Seq<Seq<Seq<char>>>;

    /// The directories still to visit; the last one is visited next.
    closed spec fn view(&self) -> Seq<Seq<Seq<char>>> {
        dir_views(self.pending@)
    }
}

impl Traversal {
    /// A walk that starts at the root.
    pub fn new() -> (r: Traversal)
        ensures
            r@ == seq![Seq::<Seq<char>>::empty()],
    {
        let root: Vec<String> = Vec::new();
        assert(views(root@) =~= Seq::<Seq<char>>::empty());
        let r = Traversal { pending: vec![root] };
        assert(r@ =~= seq![Seq::<Seq<char>>::empty()]);
        r
    }

    /// The next directory to list, if any is left.
    pub fn next_dir(&mut self) -> (r: Option<Vec<String>>)
        ensures
            old(self)@.len() == 0 ==> r is None && final(self)@ == old(self)@,
            old(self)@.len() > 0 ==> r is Some && views(r->Some_0@) == old(self)@.last()
                && final(self)@ == old(self)@.drop_last(),
    {
        let ghost before = self.pending@;
        let r = self.pending.pop();
        proof {
            if before.len() > 0 {
                assert(dir_views(self.pending@) =~= dir_views(before).drop_last());
            }
        }
        r
    }

    /// Takes the listing of the directory `dir` and returns the units of
    /// work that it yields. A directory that is gone yields nothing; any
    /// other failure to list it ends the walk with that failure. Where no
    /// entry matched, every subdirectory is left to visit.
    pub fn visit(
        &mut self,
        config: &Config,
        dir: &Vec<String>,
        listing: Result<Vec<Entry>, IoFault>,
        platform: Platform,
    ) -> (r: Result<Vec<Unit>, Error>)
        ensures
            match listing {
                Ok(entries) => r is Ok && unit_views(r->Ok_0@) == units_of(
                    config@,
                    views(dir@),
                    entry_views(entries@),
                    platform,
                ) && final(self)@ == old(self)@ + descent_of(
                    config@,
                    views(dir@),
                    entry_views(entries@),
                    platform,
                ),
                Err(fault) => final(self)@ == old(self)@ && if fault.not_found {
                    r is Ok && r->Ok_0@.len() == 0
                } else {
                    r == Err::<Vec<Unit>, Error>(Error::IO(fault))
                },
            },
    {
        match listing {
            Ok(entries) => {
                let (units, mut descend) = plan_directory(config, dir, &entries, platform);
                let ghost before = dir_views(self.pending@);
                let ghost added = dir_views(descend@);
                self.pending.append(&mut descend);
                assert(dir_views(self.pending@) =~= before + added);
                Ok(units)
            },
            Err(fault) => {
                if fault.not_found {
                    Ok(Vec::new())
                } else {
                    Err(Error::IO(fault))
                }
            },
        }
    }
}

} // verus!
