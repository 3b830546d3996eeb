//! Services by name, where a later service of a name replaces an earlier one.

use crate::service::{Service, ServiceView};
use vstd::prelude::*;

verus! {

/// The services of `services` by name: of two with one name, the later stays.
pub open spec fn index_of_services(services: Seq<ServiceView>) -> Map<Seq<char>, ServiceView>
    decreases services.len(),
{
    if services.len() == 0 {
        Map::empty()
    } else {
        index_of_services(services.drop_last()).insert(services.last().name, services.last())
    }
}

/// Whether no two services of `services` share a name.
pub open spec fn distinct_names(services: Seq<ServiceView>) -> bool {
    forall|i: int, j: int|
        0 <= i < j < services.len() ==> #[trigger] services[i].name != #[trigger] services[j].name
}

/// Whether a service of the name `name` stands in `services`.
pub open spec fn has_name(services: Seq<ServiceView>, name: Seq<char>) -> bool {
    exists|i: int| 0 <= i < services.len() && #[trigger] services[i].name == name
}

/// `services` with `service` in the place of the one that has its name, or
/// behind the others where none has.
pub open spec fn with_service(services: Seq<ServiceView>, service: ServiceView) -> Seq<
    ServiceView,
>
    decreases services.len(),
{
    if services.len() == 0 {
        seq![service]
    } else if services[0].name == service.name {
        services.update(0, service)
    } else {
        seq![services[0]] + with_service(services.drop_first(), service)
    }
}

/// The services that an index lists after each of `services` was put in,
/// one after the other.
pub open spec fn entries_of_services(services: Seq<ServiceView>) -> Seq<ServiceView>
    decreases services.len(),
{
    if services.len() == 0 {
        Seq::empty()
    } else {
        with_service(entries_of_services(services.drop_last()), services.last())
    }
}

/// The last service of each name is the one that the index holds, and the
/// index holds a name exactly where a service has it.
pub proof fn lemma_index_last_wins(services: Seq<ServiceView>)
    ensures
        forall|name: Seq<char>| #[trigger]
            index_of_services(services).contains_key(name) <==> has_name(services, name),
        forall|i: int|
            0 <= i < services.len() && (forall|j: int|
                i < j < services.len() ==> services[j].name != services[i].name)
                ==> index_of_services(services)[#[trigger] services[i].name] == services[i],
    decreases services.len(),
{
    if services.len() > 0 {
        let before = services.drop_last();
        let last = services.last();
        lemma_index_last_wins(before);
        assert forall|name: Seq<char>| #[trigger]
            index_of_services(services).contains_key(name) <==> has_name(services, name) by {
            if has_name(services, name) {
                let i = choose|i: int| 0 <= i < services.len() && #[trigger] services[i].name == name;
                if i < before.len() {
                    assert(before[i].name == name);
                }
            }
            if index_of_services(before).contains_key(name) {
                let i = choose|i: int| 0 <= i < before.len() && #[trigger] before[i].name == name;
                assert(services[i].name == name);
            }
            if name == last.name {
                assert(services[services.len() - 1].name == name);
            }
        }
        assert forall|i: int|
            0 <= i < services.len() && (forall|j: int|
                i < j < services.len() ==> services[j].name != services[i].name)
                implies index_of_services(services)[#[trigger] services[i].name] == services[i] by {
            if i < before.len() {
                assert(before[i] == services[i]);
                assert(services[before.len() as int].name != services[i].name);
                assert forall|j: int| i < j < before.len() implies before[j].name
                    != before[i].name by {
                    assert(before[j] == services[j]);
                }
            }
        }
    }
}

/// Putting a service into a list without repeated names keeps it so, keeps
/// the others, and changes the index as an insertion does.
pub proof fn lemma_with_service(services: Seq<ServiceView>, service: ServiceView)
    requires
        distinct_names(services),
    ensures
        distinct_names(with_service(services, service)),
        with_service(services, service).len() == if has_name(services, service.name) {
            services.len()
        } else {
            services.len() + 1
        },
        forall|name: Seq<char>|
            has_name(with_service(services, service), name) <==> (name == service.name
                || has_name(services, name)),
        index_of_services(with_service(services, service)) == index_of_services(services).insert(
            service.name,
            service,
        ),
{
    let out = with_service(services, service);
    lemma_with_service_shape(services, service);
    if has_name(services, service.name) {
        let at = choose|i: int| 0 <= i < services.len() && #[trigger] services[i].name == service.name;
        assert(out == services.update(at, service));
        assert forall|i: int, j: int| 0 <= i < j < out.len() implies #[trigger] out[i].name
            != #[trigger] out[j].name by {
            assert(out[i].name == services[i].name);
            assert(out[j].name == services[j].name);
        }
    } else {
        assert(out == services.push(service));
        assert forall|i: int, j: int| 0 <= i < j < out.len() implies #[trigger] out[i].name
            != #[trigger] out[j].name by {
            if j == services.len() {
                assert(services[i].name != service.name);
            }
        }
    }
    assert forall|name: Seq<char>|
        has_name(out, name) <==> (name == service.name || has_name(services, name)) by {
        if has_name(out, name) {
            let i = choose|i: int| 0 <= i < out.len() && #[trigger] out[i].name == name;
            if i < services.len() && name != service.name {
                assert(services[i].name == name);
            }
        }
        if has_name(services, name) {
            let i = choose|i: int| 0 <= i < services.len() && #[trigger] services[i].name == name;
            assert(out[i].name == name);
        }
        if name == service.name {
            if has_name(services, service.name) {
                let at = choose|i: int|
                    0 <= i < services.len() && #[trigger] services[i].name == service.name;
                assert(out[at].name == name);
            } else {
                assert(out[services.len() as int].name == name);
            }
        }
    }
    lemma_index_last_wins(out);
    lemma_index_last_wins(services);
    let left = index_of_services(out);
    let right = index_of_services(services).insert(service.name, service);
    assert forall|name: Seq<char>| left.contains_key(name) implies #[trigger] left[name]
        == right[name] by {
        let i = choose|i: int| 0 <= i < out.len() && #[trigger] out[i].name == name;
        assert(left[out[i].name] == out[i]);
        if name != service.name {
            assert(out[i] == services[i]);
            assert(index_of_services(services)[services[i].name] == services[i]);
        } else {
            if has_name(services, service.name) {
                let at = choose|k: int|
                    0 <= k < services.len() && #[trigger] services[k].name == service.name;
                assert(out[at].name == out[i].name);
            }
        }
    }
    assert(left =~= right);
}

/// `with_service` replaces the service that has the name, where there is
/// one, and appends otherwise.
pub proof fn lemma_with_service_shape(services: Seq<ServiceView>, service: ServiceView)
    requires
        distinct_names(services),
    ensures
        forall|at: int|
            0 <= at < services.len() && #[trigger] services[at].name == service.name
                ==> with_service(services, service) == services.update(at, service),
        !has_name(services, service.name) ==> with_service(services, service) == services.push(
            service,
        ),
    decreases services.len(),
{
    if services.len() > 0 {
        let rest = services.drop_first();
        if services[0].name == service.name {
            assert forall|at: int|
                0 <= at < services.len() && #[trigger] services[at].name
                    == service.name implies at == 0 by {
                if at > 0 {
                    assert(services[0].name != services[at].name);
                }
            }
        } else {
            assert(distinct_names(rest)) by {
                assert forall|i: int, j: int| 0 <= i < j < rest.len() implies #[trigger] rest[i].name
                    != #[trigger] rest[j].name by {
                    assert(services[i + 1].name != services[j + 1].name);
                }
            }
            lemma_with_service_shape(rest, service);
            let out = seq![services[0]] + with_service(rest, service);
            assert forall|at: int|
                0 <= at < services.len() && #[trigger] services[at].name
                    == service.name implies out == services.update(at, service) by {
                assert(rest[at - 1].name == service.name);
                assert(out =~= services.update(at, service));
            }
            if !has_name(services, service.name) {
                if has_name(rest, service.name) {
                    let i = choose|i: int| 0 <= i < rest.len() && #[trigger] rest[i].name == service.name;
                    assert(services[i + 1].name == service.name);
                }
                assert(out =~= services.push(service));
            }
        }
    } else {
        assert(seq![service] =~= services.push(service));
    }
}

/// The entries that an index lists have no repeated names, and stand for
/// the index of the services they were made of.
pub proof fn lemma_entries_of_services(services: Seq<ServiceView>)
    ensures
        distinct_names(entries_of_services(services)),
        index_of_services(entries_of_services(services)) == index_of_services(services),
    decreases services.len(),
{
    if services.len() > 0 {
        lemma_entries_of_services(services.drop_last());
        lemma_with_service(entries_of_services(services.drop_last()), services.last());
    }
}

/// Services by name, in the order in which their names first came.
#[derive(Debug, PartialEq, Eq)]
pub struct ServiceIndex {
    entries: Vec<Service>,
}

impl View for ServiceIndex {
    type V = Map<Seq<char>, ServiceView>;

    open spec fn view(&self) -> Map<Seq<char>, ServiceView> {
        index_of_services(self.entries())
    }
}

impl Clone for ServiceIndex {
    fn clone(&self) -> (copy: ServiceIndex)
        ensures
            copy.entries() == self.entries(),
    {
        proof {
            use_type_invariant(self);
        }
        let mut entries: Vec<Service> = Vec::new();
        let mut at: usize = 0;
        while at < self.entries.len()
            invariant
                at <= self.entries.len(),
                entries.deep_view() == self.entries.deep_view().take(at as int),
            decreases self.entries.len() - at,
        {
            let service = self.entries[at].clone();
            let ghost before = entries.deep_view();
            entries.push(service);
            assert(entries.deep_view() =~= before.push(service@));
            assert(before.push(service@) =~= self.entries.deep_view().take(at + 1));
            at += 1;
        }
        assert(self.entries.deep_view().take(at as int) == self.entries.deep_view());
        ServiceIndex { entries }
    }
}

impl ServiceIndex {
    /// The services that the index lists, one of each name.
    pub closed spec fn entries(&self) -> Seq<ServiceView> {
        self.entries.deep_view()
    }

    #[verifier::type_invariant]
    spec fn well_formed(&self) -> bool {
        distinct_names(self.entries.deep_view())
    }

    /// How many services the index holds.
    pub fn len(&self) -> (len: usize)
        ensures
            len == self.entries().len(),
            len == self@.dom().len(),
            self@.dom().finite(),
    {
        proof {
            use_type_invariant(self);
            lemma_names_counted(self.entries.deep_view());
        }
        self.entries.len()
    }

    /// The service of the name `name`, where the index holds one.
    pub fn get(&self, name: &str) -> (found: Option<&Service>)
        ensures
            found is Some <==> self@.contains_key(name@),
            found is Some ==> found->0@ == self@[name@],
    {
        proof {
            use_type_invariant(self);
            lemma_index_last_wins(self.entries.deep_view());
        }
        let wanted = name.to_owned();
        let at = position(&self.entries, &wanted);
        if at < self.entries.len() {
            assert(self.entries.deep_view()[at as int] == self.entries[at as int]@);
            Some(&self.entries[at])
        } else {
            None
        }
    }

    /// Whether the index holds a service of the name `name`.
    pub fn contains_key(&self, name: &str) -> (found: bool)
        ensures
            found == self@.contains_key(name@),
    {
        self.get(name).is_some()
    }

    /// The names that the index holds, in the order in which they first came.
    pub fn keys(&self) -> (names: Vec<&String>)
        ensures
            names.len() == self.entries().len(),
            forall|i: int| 0 <= i < names.len() ==> names[i]@ == self.entries()[i].name,
    {
        let mut names: Vec<&String> = Vec::new();
        let mut at: usize = 0;
        while at < self.entries.len()
            invariant
                at <= self.entries.len(),
                names.len() == at,
                forall|i: int| 0 <= i < at ==> names[i]@ == self.entries.deep_view()[i].name,
            decreases self.entries.len() - at,
        {
            names.push(&self.entries[at].name);
            at += 1;
        }
        names
    }

    /// The services that the index holds, in the order in which their names
    /// first came.
    pub fn services(&self) -> (services: &Vec<Service>)
        ensures
            services.deep_view() == self.entries(),
            distinct_names(self.entries()),
    {
        proof {
            use_type_invariant(self);
        }
        &self.entries
    }
}

/// A list without repeated names has as many names as services.
pub proof fn lemma_names_counted(services: Seq<ServiceView>)
    requires
        distinct_names(services),
    ensures
        index_of_services(services).dom().finite(),
        index_of_services(services).dom().len() == services.len(),
    decreases services.len(),
{
    if services.len() > 0 {
        let before = services.drop_last();
        lemma_names_counted(before);
        lemma_index_last_wins(before);
        if has_name(before, services.last().name) {
            let i = choose|i: int| 0 <= i < before.len() && #[trigger] before[i].name == services.last().name;
            assert(services[i].name != services[services.len() - 1].name);
        }
    }
}

/// The place of the service of the name `name` in `entries`, or their
/// number where none has it.
fn position(entries: &Vec<Service>, name: &String) -> (at: usize)
    ensures
        at <= entries.len(),
        at < entries.len() ==> entries.deep_view()[at as int].name == name@,
        at == entries.len() ==> !has_name(entries.deep_view(), name@),
{
    let mut at: usize = 0;
    while at < entries.len() && entries[at].name != *name
        invariant
            at <= entries.len(),
            forall|j: int| 0 <= j < at ==> entries.deep_view()[j].name != name@,
        decreases entries.len() - at,
    {
        at += 1;
    }
    at
}

/// Puts `service` into `entries`: in the place of the service of its name,
/// where there is one, and behind the others where there is none.
fn put(entries: &mut Vec<Service>, service: Service)
    requires
        distinct_names(old(entries).deep_view()),
    ensures
        final(entries).deep_view() == with_service(old(entries).deep_view(), service@),
        distinct_names(final(entries).deep_view()),
{
    proof {
        lemma_with_service(entries.deep_view(), service@);
        lemma_with_service_shape(entries.deep_view(), service@);
    }
    let ghost before = entries.deep_view();
    let at = position(entries, &service.name);
    if at < entries.len() {
        entries.set(at, service);
        assert(entries.deep_view() =~= before.update(at as int, service@));
    } else {
        entries.push(service);
        assert(entries.deep_view() =~= before.push(service@));
    }
}

/// Indexes `services` by name. Where several services have one name, the
/// last of them is kept, in the place of the first.
pub fn index_services(services: &[Service]) -> (index: ServiceIndex)
    ensures
        index@ == index_of_services(services.deep_view()),
        index.entries() == entries_of_services(services.deep_view()),
{
    let mut entries: Vec<Service> = Vec::new();
    let mut at: usize = 0;
    assert(entries.deep_view() =~= entries_of_services(services.deep_view().take(0)));
    while at < services.len()
        invariant
            at <= services.len(),
            entries.deep_view() == entries_of_services(services.deep_view().take(at as int)),
            distinct_names(entries.deep_view()),
        decreases services.len() - at,
    {
        let service = services[at].clone();
        proof {
            let next = services.deep_view().take(at + 1);
            assert(next.drop_last() == services.deep_view().take(at as int));
            assert(next.last() == services[at as int]@);
        }
        put(&mut entries, service);
        at += 1;
    }
    proof {
        assert(services.deep_view().take(at as int) == services.deep_view());
        lemma_entries_of_services(services.deep_view());
    }
    ServiceIndex { entries }
}

} // verus!
