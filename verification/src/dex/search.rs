//! Search for classes and methods in DEX files.

use vstd::prelude::*;
use crate::dex::container::{all_classes_spec, DexContainer};
use crate::dex::error::{DexError, DexErrorView};
use crate::dex::filter::{ClassFilter, ClassFilterView, MethodFilter, MethodFilterView};
use crate::dex::models::{
    dex_class_views, dex_method_views, RustDexClass, RustDexClassView, RustDexMethod,
    RustDexMethodView,
};
use crate::apk::extractor::dex_entry_views;

verus! {

/// Search engine for finding classes and methods in DEX files.
pub struct DexSearcher {
    pub container: DexContainer,
}

/// The classes among `classes` that match `filter`.
pub open spec fn matching_classes(classes: Seq<RustDexClassView>, filter: ClassFilterView) -> Seq<
    RustDexClassView,
> {
    classes.filter(|c: RustDexClassView| filter.matches(c))
}

/// The first `max` of `items`; all of them if there are fewer.
pub open spec fn at_most<T>(items: Seq<T>, max: nat) -> Seq<T> {
    if items.len() <= max {
        items
    } else {
        items.take(max as int)
    }
}

/// Where a search stops: at the limit, if there is one, but not before the
/// first match.
pub open spec fn stop_after(limit: Option<usize>) -> Option<nat> {
    match limit {
        Some(max) => Some(
            if max == 0 {
                1nat
            } else {
                max as nat
            },
        ),
        None => None,
    }
}

/// The matches of a search that stops once it has reached its limit.
pub open spec fn limited<T>(matches: Seq<T>, limit: Option<usize>) -> Seq<T> {
    match stop_after(limit) {
        Some(max) => at_most(matches, max),
        None => matches,
    }
}

/// The methods of the first `n` classes that match `filter`, class after
/// class.
pub open spec fn matching_methods(classes: Seq<RustDexClassView>, filter: MethodFilterView, n: nat) -> Seq<
    RustDexMethodView,
>
    decreases n,
{
    if n == 0 || n > classes.len() {
        Seq::empty()
    } else {
        matching_methods(classes, filter, (n - 1) as nat) + classes[n - 1].methods.filter(
            |m: RustDexMethodView| filter.matches(m),
        )
    }
}

/// The classes among `classes` that match `filter`, up to `limit` of them.
pub fn select_classes(classes: &Vec<RustDexClass>, filter: &ClassFilter, limit: Option<usize>) -> (found:
    Vec<RustDexClass>)
    ensures
        dex_class_views(found@) == limited(
            matching_classes(dex_class_views(classes@), filter@),
            limit,
        ),
{
    let ghost all = dex_class_views(classes@);
    let ghost keep = |c: RustDexClassView| filter@.matches(c);
    let mut found: Vec<RustDexClass> = Vec::new();
    let mut k: usize = 0;
    assert(dex_class_views(found@) =~= all.take(0).filter(keep));
    while k < classes.len()
        invariant
            k <= classes@.len(),
            all == dex_class_views(classes@),
            keep == |c: RustDexClassView| filter@.matches(c),
            dex_class_views(found@) == all.take(k as int).filter(keep),
            match stop_after(limit) {
                Some(max) => found@.len() < max,
                None => true,
            },
        decreases classes@.len() - k,
    {
        let ghost before = dex_class_views(found@);
        proof {
            assert(all.take(k + 1).drop_last() =~= all.take(k as int));
            assert(all.take(k + 1).last() == classes@[k as int]@);
            reveal(Seq::filter);
        }
        if filter.matches(&classes[k]) {
            let copy = classes[k].duplicate();
            found.push(copy);
            assert(dex_class_views(found@) =~= before.push(copy@));
            match limit {
                Some(max) => {
                    if found.len() >= max {
                        proof {
                            let head = all.take(k + 1);
                            let tail = all.skip(k + 1);
                            assert(all =~= head + tail);
                            Seq::filter_distributes_over_add(head, tail, keep);
                            assert((head.filter(keep) + tail.filter(keep)).take(
                                head.filter(keep).len() as int,
                            ) =~= head.filter(keep));
                        }
                        return found;
                    }
                },
                None => {},
            }
        }
        k += 1;
    }
    assert(all.take(all.len() as int) =~= all);
    found
}

/// The methods of `class` that match `filter`.
fn select_methods(class: &RustDexClass, filter: &MethodFilter) -> (found: Vec<RustDexMethod>)
    ensures
        dex_method_views(found@) == class@.methods.filter(
            |m: RustDexMethodView| filter@.matches(m),
        ),
{
    let ghost all = class@.methods;
    let ghost keep = |m: RustDexMethodView| filter@.matches(m);
    let mut found: Vec<RustDexMethod> = Vec::new();
    let mut k: usize = 0;
    assert(dex_method_views(found@) =~= all.take(0).filter(keep));
    while k < class.methods.len()
        invariant
            k <= class.methods@.len(),
            all == class@.methods,
            keep == |m: RustDexMethodView| filter@.matches(m),
            dex_method_views(found@) == all.take(k as int).filter(keep),
        decreases class.methods@.len() - k,
    {
        let ghost before = dex_method_views(found@);
        proof {
            assert(all.take(k + 1).drop_last() =~= all.take(k as int));
            assert(all.take(k + 1).last() == class.methods@[k as int]@);
            reveal(Seq::filter);
        }
        if filter.matches(&class.methods[k]) {
            let copy = class.methods[k].duplicate();
            found.push(copy);
            assert(dex_method_views(found@) =~= before.push(copy@));
        }
        k += 1;
    }
    assert(all.take(all.len() as int) =~= all);
    found
}

/// The methods of `classes` that match `filter`, class after class.
pub fn select_all_methods(classes: &Vec<RustDexClass>, filter: &MethodFilter) -> (found: Vec<
    RustDexMethod,
>)
    ensures
        dex_method_views(found@) == matching_methods(
            dex_class_views(classes@),
            filter@,
            classes@.len(),
        ),
{
    let ghost all = dex_class_views(classes@);
    let mut found: Vec<RustDexMethod> = Vec::new();
    let mut k: usize = 0;
    assert(dex_method_views(found@) =~= matching_methods(all, filter@, 0));
    while k < classes.len()
        invariant
            k <= classes@.len(),
            all == dex_class_views(classes@),
            dex_method_views(found@) == matching_methods(all, filter@, k as nat),
        decreases classes@.len() - k,
    {
        let ghost before = dex_method_views(found@);
        assert(all[k as int] == classes@[k as int]@);
        let mut more = select_methods(&classes[k], filter);
        let ghost added = dex_method_views(more@);
        found.append(&mut more);
        assert(dex_method_views(found@) =~= before + added);
        k += 1;
    }
    found
}

/// `found` without what lies beyond the first `max` of its items.
pub fn keep_at_most<T>(found: &mut Vec<T>, max: usize)
    ensures
        final(found)@ == at_most(old(found)@, max as nat),
{
    if found.len() > max {
        found.truncate(max);
        assert(found@ =~= old(found)@.take(max as int));
    }
}

/// The classes that a search finds, or the error that ended it.
pub open spec fn found_classes(
    classes: Result<Seq<RustDexClassView>, DexErrorView>,
    filter: ClassFilterView,
    limit: Option<usize>,
) -> Result<Seq<RustDexClassView>, DexErrorView> {
    match classes {
        Ok(all) => Ok(limited(matching_classes(all, filter), limit)),
        Err(e) => Err(e),
    }
}

/// The methods that a search finds, or the error that ended it.
pub open spec fn found_methods(
    classes: Result<Seq<RustDexClassView>, DexErrorView>,
    class_filter: ClassFilterView,
    method_filter: MethodFilterView,
    limit: Option<usize>,
) -> Result<Seq<RustDexMethodView>, DexErrorView> {
    match classes {
        Ok(all) => Ok(
            limited(
                matching_methods(
                    matching_classes(all, class_filter),
                    method_filter,
                    matching_classes(all, class_filter).len(),
                ),
                limit,
            ),
        ),
        Err(e) => Err(e),
    }
}

/// The view of an optional class.
pub open spec fn class_opt_view(class: Option<RustDexClass>) -> Option<RustDexClassView> {
    match class {
        Some(c) => Some(c@),
        None => None,
    }
}

/// The view of an optional method.
pub open spec fn method_opt_view(method: Option<RustDexMethod>) -> Option<RustDexMethodView> {
    match method {
        Some(m) => Some(m@),
        None => None,
    }
}

/// The first of `items`, if there is one.
pub open spec fn first_of<T>(items: Seq<T>) -> Option<T> {
    if items.len() == 0 {
        None
    } else {
        Some(items[0])
    }
}

/// The first class that matches, or the error that ended the search.
pub open spec fn first_class(
    classes: Result<Seq<RustDexClassView>, DexErrorView>,
    filter: ClassFilterView,
) -> Result<Option<RustDexClassView>, DexErrorView> {
    match classes {
        Ok(all) => Ok(first_of(matching_classes(all, filter))),
        Err(e) => Err(e),
    }
}

/// The first method that matches in a class that matches, or the error that
/// ended the search.
pub open spec fn first_method(
    classes: Result<Seq<RustDexClassView>, DexErrorView>,
    class_filter: ClassFilterView,
    method_filter: MethodFilterView,
) -> Result<Option<RustDexMethodView>, DexErrorView> {
    match classes {
        Ok(all) => Ok(
            first_of(
                matching_methods(
                    matching_classes(all, class_filter),
                    method_filter,
                    matching_classes(all, class_filter).len(),
                ),
            ),
        ),
        Err(e) => Err(e),
    }
}

/// The first class among `classes` that matches `filter`.
pub fn first_matching_class(classes: &Vec<RustDexClass>, filter: &ClassFilter) -> (found: Option<
    RustDexClass,
>)
    ensures
        class_opt_view(found) == first_of(matching_classes(dex_class_views(classes@), filter@)),
{
    let mut found = select_classes(classes, filter, Some(1));
    let ghost all = found@;
    let ghost first = dex_class_views(found@);
    let ghost matches = matching_classes(dex_class_views(classes@), filter@);
    assert(first == at_most(matches, 1));
    assert(first.len() <= 1);
    match found.pop() {
        Some(class) => {
            assert(all.len() == 1);
            assert(first[0] == all[0]@);
            assert(first[0] == matches[0]);
            Some(class)
        },
        None => {
            assert(all.len() == 0);
            assert(matches.len() == 0);
            None
        },
    }
}

/// The methods that match `method_filter` in the classes that match
/// `class_filter`, up to `limit` of them.
pub fn select_limited_methods(
    classes: &Vec<RustDexClass>,
    class_filter: &ClassFilter,
    method_filter: &MethodFilter,
    limit: Option<usize>,
) -> (found: Vec<RustDexMethod>)
    ensures
        dex_method_views(found@) == limited(
            matching_methods(
                matching_classes(dex_class_views(classes@), class_filter@),
                method_filter@,
                matching_classes(dex_class_views(classes@), class_filter@).len(),
            ),
            limit,
        ),
{
    let selected = select_classes(classes, class_filter, None);
    let mut found = select_all_methods(&selected, method_filter);
    match limit {
        Some(max) => {
            let ghost before = dex_method_views(found@);
            keep_at_most(
                &mut found,
                if max == 0 {
                    1
                } else {
                    max
                },
            );
            assert(dex_method_views(found@) =~= limited(before, limit));
        },
        None => {},
    }
    found
}

/// The first method that matches `method_filter` in a class that matches
/// `class_filter`.
pub fn first_matching_method(
    classes: &Vec<RustDexClass>,
    class_filter: &ClassFilter,
    method_filter: &MethodFilter,
) -> (found: Option<RustDexMethod>)
    ensures
        method_opt_view(found) == first_of(
            matching_methods(
                matching_classes(dex_class_views(classes@), class_filter@),
                method_filter@,
                matching_classes(dex_class_views(classes@), class_filter@).len(),
            ),
        ),
{
    let mut found = select_limited_methods(classes, class_filter, method_filter, Some(1));
    let ghost all = found@;
    let ghost first = dex_method_views(found@);
    let ghost matches = matching_methods(
        matching_classes(dex_class_views(classes@), class_filter@),
        method_filter@,
        matching_classes(dex_class_views(classes@), class_filter@).len(),
    );
    assert(first == at_most(matches, 1));
    assert(first.len() <= 1);
    match found.pop() {
        Some(method) => {
            assert(all.len() == 1);
            assert(first[0] == all[0]@);
            assert(first[0] == matches[0]);
            Some(method)
        },
        None => {
            assert(all.len() == 0);
            assert(matches.len() == 0);
            None
        },
    }
}

impl DexSearcher {
    /// Create a new DexSearcher.
    pub fn new(container: DexContainer) -> (searcher: DexSearcher)
        ensures
            searcher.container == container,
    {
        DexSearcher { container }
    }

    /// All classes of the container, or the error of reading them.
    pub open spec fn all_classes(&self) -> Result<Seq<RustDexClassView>, DexErrorView> {
        all_classes_spec(
            dex_entry_views(self.container.dex_entries@),
            self.container.dex_entries@.len(),
        )
    }

    /// Find a single class matching the filter: the first one.
    pub fn find_class(&self, filter: &ClassFilter) -> (r: Result<Option<RustDexClass>, DexError>)
        ensures
            match r {
                Ok(found) => first_class(self.all_classes(), filter@) == Ok::<
                    Option<RustDexClassView>,
                    DexErrorView,
                >(class_opt_view(found)),
                Err(e) => first_class(self.all_classes(), filter@) == Err::<
                    Option<RustDexClassView>,
                    DexErrorView,
                >(e@),
            },
    {
        match self.container.extract_all_classes() {
            Ok(classes) => Ok(first_matching_class(&classes, filter)),
            Err(e) => Err(e),
        }
    }

    /// Find all classes matching the filter. With a limit, the search stops
    /// at the match that reaches it.
    pub fn find_classes(&self, filter: &ClassFilter, limit: Option<usize>) -> (r: Result<
        Vec<RustDexClass>,
        DexError,
    >)
        ensures
            match r {
                Ok(found) => found_classes(self.all_classes(), filter@, limit) == Ok::<
                    Seq<RustDexClassView>,
                    DexErrorView,
                >(dex_class_views(found@)),
                Err(e) => found_classes(self.all_classes(), filter@, limit) == Err::<
                    Seq<RustDexClassView>,
                    DexErrorView,
                >(e@),
            },
    {
        match self.container.extract_all_classes() {
            Ok(classes) => Ok(select_classes(&classes, filter, limit)),
            Err(e) => Err(e),
        }
    }

    /// Find a single method matching the filters: the first one.
    pub fn find_method(&self, class_filter: &ClassFilter, method_filter: &MethodFilter) -> (r: Result<
        Option<RustDexMethod>,
        DexError,
    >)
        ensures
            match r {
                Ok(found) => first_method(self.all_classes(), class_filter@, method_filter@) == Ok::<
                    Option<RustDexMethodView>,
                    DexErrorView,
                >(method_opt_view(found)),
                Err(e) => first_method(self.all_classes(), class_filter@, method_filter@) == Err::<
                    Option<RustDexMethodView>,
                    DexErrorView,
                >(e@),
            },
    {
        match self.container.extract_all_classes() {
            Ok(classes) => Ok(first_matching_method(&classes, class_filter, method_filter)),
            Err(e) => Err(e),
        }
    }

    /// Find all methods matching the filters. With a limit, the search
    /// stops at the match that reaches it.
    pub fn find_methods(
        &self,
        class_filter: &ClassFilter,
        method_filter: &MethodFilter,
        limit: Option<usize>,
    ) -> (r: Result<Vec<RustDexMethod>, DexError>)
        ensures
            match r {
                Ok(found) => found_methods(
                    self.all_classes(),
                    class_filter@,
                    method_filter@,
                    limit,
                ) == Ok::<Seq<RustDexMethodView>, DexErrorView>(dex_method_views(found@)),
                Err(e) => found_methods(self.all_classes(), class_filter@, method_filter@, limit)
                    == Err::<Seq<RustDexMethodView>, DexErrorView>(e@),
            },
    {
        match self.container.extract_all_classes() {
            Ok(classes) => Ok(select_limited_methods(&classes, class_filter, method_filter, limit)),
            Err(e) => Err(e),
        }
    }

    /// Get DEX file count.
    pub fn dex_count(&self) -> (count: usize)
        ensures
            count == self.container.dex_entries@.len(),
    {
        self.container.dex_count()
    }
}

/// The classes among `all_classes` that match `filter`, cut to `limit`.
pub fn search_classes(all_classes: &Vec<RustDexClass>, filter: &ClassFilter, limit: Option<usize>) -> (found:
    Vec<RustDexClass>)
    ensures
        dex_class_views(found@) == (match limit {
            Some(max) => at_most(
                matching_classes(dex_class_views(all_classes@), filter@),
                max as nat,
            ),
            None => matching_classes(dex_class_views(all_classes@), filter@),
        }),
{
    let mut found = select_classes(all_classes, filter, None);
    match limit {
        Some(max) => {
            let ghost before = dex_class_views(found@);
            keep_at_most(&mut found, max);
            assert(dex_class_views(found@) =~= at_most(before, max as nat));
        },
        None => {},
    }
    found
}

/// A class and one of its methods.
pub type ClassMethod = (RustDexClassView, RustDexMethodView);

/// The pairs of `class` with the first `n` of its methods that match the
/// filter.
pub open spec fn class_pairs(class: RustDexClassView, filter: MethodFilterView, n: nat) -> Seq<
    ClassMethod,
>
    decreases n,
{
    if n == 0 || n > class.methods.len() {
        Seq::empty()
    } else {
        let before = class_pairs(class, filter, (n - 1) as nat);
        if filter.matches(class.methods[n - 1]) {
            before.push((class, class.methods[n - 1]))
        } else {
            before
        }
    }
}

/// The pairs of the first `n` classes that match the class filter with
/// their methods that match the method filter.
pub open spec fn matching_pairs(
    classes: Seq<RustDexClassView>,
    class_filter: ClassFilterView,
    method_filter: MethodFilterView,
    n: nat,
) -> Seq<ClassMethod>
    decreases n,
{
    if n == 0 || n > classes.len() {
        Seq::empty()
    } else {
        let before = matching_pairs(classes, class_filter, method_filter, (n - 1) as nat);
        if class_filter.matches(classes[n - 1]) {
            before + class_pairs(classes[n - 1], method_filter, classes[n - 1].methods.len())
        } else {
            before
        }
    }
}

/// The views of a sequence of pairs.
pub open spec fn pair_views(pairs: Seq<(RustDexClass, RustDexMethod)>) -> Seq<ClassMethod> {
    pairs.map_values(|p: (RustDexClass, RustDexMethod)| (p.0@, p.1@))
}

fn pairs_of_class(class: &RustDexClass, filter: &MethodFilter, out: &mut Vec<(RustDexClass, RustDexMethod)>)
    ensures
        pair_views(final(out)@) == pair_views(old(out)@) + class_pairs(
            class@,
            filter@,
            class@.methods.len(),
        ),
{
    let ghost start = pair_views(out@);
    let mut k: usize = 0;
    assert(start + class_pairs(class@, filter@, 0) =~= start);
    while k < class.methods.len()
        invariant
            k <= class.methods@.len(),
            pair_views(out@) == start + class_pairs(class@, filter@, k as nat),
        decreases class.methods@.len() - k,
    {
        let ghost before = pair_views(out@);
        let ghost done = class_pairs(class@, filter@, k as nat);
        assert(class@.methods[k as int] == class.methods@[k as int]@);
        if filter.matches(&class.methods[k]) {
            let pair = (class.duplicate(), class.methods[k].duplicate());
            let ghost value = (pair.0@, pair.1@);
            out.push(pair);
            assert(pair_views(out@) =~= before.push(value));
            assert(start + done.push(value) =~= (start + done).push(value));
        }
        k += 1;
    }
}

/// The pairs of a class that matches `class_filter` with each of its
/// methods that matches `method_filter`, up to `limit` pairs; the search
/// stops at the pair that reaches the limit.
pub fn search_methods(
    all_classes: &Vec<RustDexClass>,
    class_filter: &ClassFilter,
    method_filter: &MethodFilter,
    limit: Option<usize>,
) -> (found: Vec<(RustDexClass, RustDexMethod)>)
    ensures
        pair_views(found@) == limited(
            matching_pairs(
                dex_class_views(all_classes@),
                class_filter@,
                method_filter@,
                all_classes@.len(),
            ),
            limit,
        ),
{
    let ghost all = dex_class_views(all_classes@);
    let mut found: Vec<(RustDexClass, RustDexMethod)> = Vec::new();
    let mut k: usize = 0;
    assert(pair_views(found@) =~= matching_pairs(all, class_filter@, method_filter@, 0));
    while k < all_classes.len()
        invariant
            k <= all_classes@.len(),
            all == dex_class_views(all_classes@),
            pair_views(found@) == matching_pairs(all, class_filter@, method_filter@, k as nat),
        decreases all_classes@.len() - k,
    {
        assert(all[k as int] == all_classes@[k as int]@);
        if class_filter.matches(&all_classes[k]) {
            pairs_of_class(&all_classes[k], method_filter, &mut found);
        }
        k += 1;
    }
    match limit {
        Some(max) => {
            let ghost before = pair_views(found@);
            keep_at_most(
                &mut found,
                if max == 0 {
                    1
                } else {
                    max
                },
            );
            assert(pair_views(found@) =~= limited(before, limit));
        },
        None => {},
    }
    found
}

} // verus!
