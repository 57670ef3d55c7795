//! The services that a server offers for every model. A payload always holds
//! the `metadata` service, and no two of its services share a name.

use vstd::prelude::*;

use crate::text::str_equals;

verus! {

/// What produces a service's data.
#[derive(Clone, Copy, Debug, PartialEq, Eq, Structural)]
pub enum ServiceProvider {
    Metadata,
    Neuroscope,
    Neuron2Graph,
    Neuron2GraphSearch,
}

/// A named service.
#[derive(Clone, Debug)]
pub struct Service {
    name: String,
    provider: ServiceProvider,
}

impl Service {
    pub fn new(name: String, provider: ServiceProvider) -> (r: Self)
        ensures
            r.name_spec() == name@,
            r.provider_spec() == provider,
    {
        Service { name, provider }
    }

    pub closed spec fn name_spec(&self) -> Seq<char> {
        self.name@
    }

    pub closed spec fn provider_spec(&self) -> ServiceProvider {
        self.provider
    }

    pub fn name(&self) -> (r: &str)
        ensures
            r@ == self.name_spec(),
    {
        self.name.as_str()
    }

    pub fn provider(&self) -> (r: ServiceProvider)
        ensures
            r == self.provider_spec(),
    {
        self.provider
    }
}

/// Why a service could not be added to a payload.
#[derive(Debug, Clone, PartialEq, Eq)]
pub enum PayloadError {
    /// The payload holds its own `metadata` service; another cannot be added.
    MetadataServiceExists,
    /// A service of this name is already there; the name is given.
    ServiceExists(String),
}

/// The name of the service that every payload holds.
pub open spec fn metadata_name() -> Seq<char> {
    "metadata"@
}

/// No two services of the list share a name.
pub open spec fn names_distinct(services: Seq<Service>) -> bool {
    forall|i: int, j: int|
        0 <= i < j < services.len() ==> services[i].name_spec() != services[j].name_spec()
}

/// Some service of the list has the given name.
pub open spec fn has_service_named(services: Seq<Service>, name: Seq<char>) -> bool {
    exists|i: int| 0 <= i < services.len() && #[trigger] services[i].name_spec() == name
}

/// The providers of the listed services, by name.
pub open spec fn service_map(services: Seq<Service>) -> Map<Seq<char>, ServiceProvider>
    decreases services.len(),
{
    if services.len() == 0 {
        Map::empty()
    } else {
        service_map(services.drop_last()).insert(
            services.last().name_spec(),
            services.last().provider_spec(),
        )
    }
}

/// The service named `metadata` is the metadata service.
pub open spec fn metadata_is_own(services: Seq<Service>) -> bool {
    forall|i: int|
        0 <= i < services.len() && #[trigger] services[i].name_spec() == metadata_name()
            ==> services[i].provider_spec() == ServiceProvider::Metadata
}

/// The services of a payload after one named `name` with the provider
/// `provider` is offered: it is taken unless it is named `metadata` or its
/// name is taken.
pub open spec fn payload_after_add(
    services: Map<Seq<char>, ServiceProvider>,
    name: Seq<char>,
    provider: ServiceProvider,
) -> Map<Seq<char>, ServiceProvider> {
    if name == metadata_name() || services.dom().contains(name) {
        services
    } else {
        services.insert(name, provider)
    }
}

/// The services of a new payload: the `metadata` service alone.
pub open spec fn initial_services() -> Map<Seq<char>, ServiceProvider> {
    Map::<Seq<char>, ServiceProvider>::empty().insert(metadata_name(), ServiceProvider::Metadata)
}

/// The services of a new payload after the given services, by name and
/// provider, are offered in order.
pub open spec fn registered(added: Seq<(Seq<char>, ServiceProvider)>) -> Map<
    Seq<char>,
    ServiceProvider,
>
    decreases added.len(),
{
    if added.len() == 0 {
        initial_services()
    } else {
        payload_after_add(registered(added.drop_last()), added.last().0, added.last().1)
    }
}

/// A payload that starts new and is offered services in turn holds finitely
/// many services: `metadata`, with its own provider, and each offered name,
/// with the provider it was first offered with.
pub proof fn law_registered_services(added: Seq<(Seq<char>, ServiceProvider)>, k: Seq<char>)
    ensures
        registered(added).dom().finite(),
        registered(added).dom().contains(k) <==> (k == metadata_name() || exists|i: int|
            0 <= i < added.len() && added[i].0 == k),
        registered(added)[metadata_name()] == ServiceProvider::Metadata,
        forall|i: int|
            0 <= i < added.len() && k != metadata_name() && added[i].0 == k && (forall|j: int|
                0 <= j < i ==> added[j].0 != k) ==> registered(added)[k] == added[i].1,
    decreases added.len(),
{
    if added.len() > 0 {
        let init = added.drop_last();
        law_registered_services(init, k);
        let last = added.last();
        if registered(added).dom().contains(k) && k != metadata_name() && !(exists|i: int|
            0 <= i < init.len() && init[i].0 == k) {
            assert(added[added.len() - 1].0 == k);
        }
        if exists|i: int| 0 <= i < init.len() && init[i].0 == k {
            let i = choose|i: int| 0 <= i < init.len() && init[i].0 == k;
            assert(added[i].0 == k);
        }
        if exists|i: int| 0 <= i < added.len() && added[i].0 == k {
            let i = choose|i: int| 0 <= i < added.len() && added[i].0 == k;
            if i < init.len() {
                assert(init[i].0 == k);
            }
        }
        assert forall|i: int|
            0 <= i < added.len() && k != metadata_name() && added[i].0 == k && (forall|j: int|
                0 <= j < i ==> added[j].0 != k) implies registered(added)[k] == added[i].1 by {
            if i < init.len() {
                assert(init[i].0 == k);
                assert forall|j: int| 0 <= j < i implies init[j].0 != k by {
                    assert(added[j].0 != k);
                }
            } else {
                assert forall|j: int| 0 <= j < init.len() implies init[j].0 != k by {
                    assert(added[j].0 != k);
                }
            }
        }
    }
}

/// The services of a default payload are those of a new payload offered
/// `neuroscope`, `neuron2graph` and `neuron2graph-search` in turn.
pub proof fn law_default_registered()
    ensures
        registered(
            seq![
                ("neuroscope"@, ServiceProvider::Neuroscope),
                ("neuron2graph"@, ServiceProvider::Neuron2Graph),
                ("neuron2graph-search"@, ServiceProvider::Neuron2GraphSearch),
            ],
        ) == Map::<Seq<char>, ServiceProvider>::empty().insert(
            metadata_name(),
            ServiceProvider::Metadata,
        ).insert("neuroscope"@, ServiceProvider::Neuroscope).insert(
            "neuron2graph"@,
            ServiceProvider::Neuron2Graph,
        ).insert("neuron2graph-search"@, ServiceProvider::Neuron2GraphSearch),
{
    reveal_strlit("metadata");
    reveal_strlit("neuroscope");
    reveal_strlit("neuron2graph");
    reveal_strlit("neuron2graph-search");
    let added = seq![
        ("neuroscope"@, ServiceProvider::Neuroscope),
        ("neuron2graph"@, ServiceProvider::Neuron2Graph),
        ("neuron2graph-search"@, ServiceProvider::Neuron2GraphSearch),
    ];
    assert("metadata"@.len() == 8);
    assert("neuroscope"@.len() == 10);
    assert("neuron2graph"@.len() == 12);
    assert("neuron2graph-search"@.len() == 19);
    let a1 = seq![("neuroscope"@, ServiceProvider::Neuroscope)];
    let a2 = a1.push(("neuron2graph"@, ServiceProvider::Neuron2Graph));
    assert(a2.push(("neuron2graph-search"@, ServiceProvider::Neuron2GraphSearch)) =~= added);
    assert(a1.drop_last() =~= Seq::<(Seq<char>, ServiceProvider)>::empty());
    assert(a2.drop_last() =~= a1);
    assert(added.drop_last() =~= a2);
    let m0 = initial_services();
    assert(registered(Seq::<(Seq<char>, ServiceProvider)>::empty()) == m0);
    assert("neuroscope"@ != metadata_name());
    assert(!m0.dom().contains("neuroscope"@));
    let m1 = m0.insert("neuroscope"@, ServiceProvider::Neuroscope);
    assert(registered(a1) == m1);
    assert("neuron2graph"@ != metadata_name());
    assert(!m1.dom().contains("neuron2graph"@));
    let m2 = m1.insert("neuron2graph"@, ServiceProvider::Neuron2Graph);
    assert(registered(a2) == m2);
    assert("neuron2graph-search"@ != metadata_name());
    assert(!m2.dom().contains("neuron2graph-search"@));
    assert(registered(added) == m2.insert(
        "neuron2graph-search"@,
        ServiceProvider::Neuron2GraphSearch,
    ));
}

/// The services of a payload.
pub struct Payload {
    services: Vec<Service>,
}

impl View for Payload {
    type V = Map<Seq<char>, ServiceProvider>;

    closed spec fn view(&self) -> Map<Seq<char>, ServiceProvider> {
        service_map(self.services@)
    }
}

/// The map of a list holds exactly the listed names, each with the provider
/// of the service of that name.
pub proof fn lemma_service_map(services: Seq<Service>)
    requires
        names_distinct(services),
    ensures
        forall|name: Seq<char>|
            #[trigger] service_map(services).dom().contains(name) <==> has_service_named(
                services,
                name,
            ),
        forall|i: int|
            0 <= i < services.len() ==> #[trigger] service_map(services)[services[i].name_spec()]
                == services[i].provider_spec(),
        service_map(services).dom().finite(),
        service_map(services).dom().len() == services.len(),
    decreases services.len(),
{
    if services.len() > 0 {
        let init = services.drop_last();
        lemma_service_map(init);
        let last = services.last();
        assert(!has_service_named(init, last.name_spec())) by {
            if has_service_named(init, last.name_spec()) {
                let i = choose|i: int|
                    0 <= i < init.len() && #[trigger] init[i].name_spec() == last.name_spec();
                assert(services[i].name_spec() != services[services.len() - 1].name_spec());
            }
        }
        assert forall|name: Seq<char>|
            #[trigger] service_map(services).dom().contains(name) <==> has_service_named(
                services,
                name,
            ) by {
            if has_service_named(services, name) {
                let i = choose|i: int|
                    0 <= i < services.len() && #[trigger] services[i].name_spec() == name;
                if i < services.len() - 1 {
                    assert(init[i].name_spec() == name);
                }
            }
            if has_service_named(init, name) {
                let i = choose|i: int| 0 <= i < init.len() && #[trigger] init[i].name_spec() == name;
                assert(services[i].name_spec() == name);
            }
        }
        assert forall|i: int| 0 <= i < services.len() implies #[trigger] service_map(
            services,
        )[services[i].name_spec()] == services[i].provider_spec() by {
            if i < services.len() - 1 {
                assert(init[i] == services[i]);
                assert(services[i].name_spec() != last.name_spec());
            }
        }
    }
}

impl Payload {
    #[verifier::type_invariant]
    spec fn well_formed(self) -> bool {
        &&& names_distinct(self.services@)
        &&& has_service_named(self.services@, metadata_name())
        &&& metadata_is_own(self.services@)
    }

    /// A payload with only the `metadata` service.
    pub fn initialize() -> (r: Self)
        ensures
            r@ == initial_services(),
    {
        proof {
            reveal_strlit("metadata");
        }
        let metadata_service = Service::new("metadata".to_owned(), ServiceProvider::Metadata);
        let mut services = Vec::new();
        services.push(metadata_service);
        assert(services@.drop_last() =~= Seq::<Service>::empty());
        assert(services@[0].name_spec() == metadata_name());
        assert(has_service_named(services@, metadata_name()));
        assert(service_map(Seq::<Service>::empty()) == Map::<Seq<char>, ServiceProvider>::empty());
        assert(services@.last().provider_spec() == ServiceProvider::Metadata);
        assert(service_map(services@) =~= Map::<Seq<char>, ServiceProvider>::empty().insert(
            metadata_name(),
            ServiceProvider::Metadata,
        ));
        Payload { services }
    }

    /// Adds a service, unless it is named `metadata` or a service of its
    /// name is already there.
    #[verifier::loop_isolation(false)]
    pub fn add_service(&mut self, service: Service) -> (r: Result<(), PayloadError>)
        ensures
            service.name_spec() == metadata_name() ==> r == Err::<(), PayloadError>(
                PayloadError::MetadataServiceExists,
            ) && final(self)@ == old(self)@,
            service.name_spec() != metadata_name() && old(self)@.dom().contains(service.name_spec())
                ==> r is Err && r->Err_0 is ServiceExists && r->Err_0->ServiceExists_0@
                == service.name_spec() && final(self)@ == old(self)@,
            service.name_spec() != metadata_name() && !old(self)@.dom().contains(
                service.name_spec(),
            ) ==> r is Ok && final(self)@ == old(self)@.insert(
                service.name_spec(),
                service.provider_spec(),
            ),
            final(self)@ == payload_after_add(
                old(self)@,
                service.name_spec(),
                service.provider_spec(),
            ),
            final(self)@.dom().finite(),
            r is Ok ==> final(self)@.dom().len() == old(self)@.dom().len() + 1,
    {
        proof {
            use_type_invariant(&*self);
            lemma_service_map(self.services@);
            reveal_strlit("metadata");
        }
        if str_equals(service.name(), "metadata") {
            return Err(PayloadError::MetadataServiceExists);
        }
        let mut i: usize = 0;
        while i < self.services.len()
            invariant
                i <= self.services@.len(),
                forall|j: int|
                    0 <= j < i ==> self.services@[j].name_spec() != service.name_spec(),
            decreases self.services.len() - i,
        {
            if str_equals(self.services[i].name(), service.name()) {
                assert(has_service_named(self.services@, service.name_spec()));
                return Err(PayloadError::ServiceExists(service.name().to_owned()));
            }
            i = i + 1;
        }
        assert(!has_service_named(self.services@, service.name_spec()));
        let ghost before = self.services@;
        let ghost after = before.push(service);
        assert(after.drop_last() =~= before);
        assert(names_distinct(after)) by {
            assert forall|a: int, b: int| 0 <= a < b < after.len() implies after[a].name_spec()
                != after[b].name_spec() by {
                if b == after.len() - 1 {
                    assert(before[a] == after[a]);
                }
            }
        }
        assert(metadata_is_own(after)) by {
            assert forall|k: int|
                0 <= k < after.len() && #[trigger] after[k].name_spec() == metadata_name() implies after[k].provider_spec()
                == ServiceProvider::Metadata by {
                if k < before.len() {
                    assert(after[k] == before[k]);
                }
            }
        }
        assert(has_service_named(after, metadata_name())) by {
            let k = choose|k: int|
                0 <= k < before.len() && #[trigger] before[k].name_spec() == metadata_name();
            assert(after[k] == before[k]);
        }
        let mut taken = Payload::initialize();
        std::mem::swap(self, &mut taken);
        let Payload { mut services } = taken;
        services.push(service);
        *self = Payload { services };
        Ok(())
    }

    /// The payload's services, each once.
    pub fn services(&self) -> (r: &[Service])
        ensures
            self@.dom().finite(),
            r@.len() == self@.dom().len(),
            names_distinct(r@),
            forall|name: Seq<char>|
                self@.dom().contains(name) ==> exists|i: int|
                    0 <= i < r@.len() && #[trigger] r@[i].name_spec() == name,
            forall|i: int|
                0 <= i < r@.len() ==> self@.dom().contains(#[trigger] r@[i].name_spec())
                    && self@[r@[i].name_spec()] == r@[i].provider_spec(),
    {
        proof {
            use_type_invariant(self);
            lemma_service_map(self.services@);
        }
        self.services.as_slice()
    }

    /// The service named `key`, if there is one.
    #[verifier::loop_isolation(false)]
    pub fn service(&self, key: &str) -> (r: Option<&Service>)
        ensures
            r matches Some(s) ==> s.name_spec() == key@ && self@.dom().contains(key@)
                && self@[key@] == s.provider_spec(),
            r is None ==> !self@.dom().contains(key@),
    {
        proof {
            use_type_invariant(self);
            lemma_service_map(self.services@);
        }
        let mut i: usize = 0;
        while i < self.services.len()
            invariant
                i <= self.services@.len(),
                forall|j: int| 0 <= j < i ==> self.services@[j].name_spec() != key@,
            decreases self.services.len() - i,
        {
            if str_equals(self.services[i].name(), key) {
                return Some(&self.services[i]);
            }
            i = i + 1;
        }
        None
    }

    /// The `metadata` service, which every payload holds.
    pub fn metadata_service(&self) -> (r: &Service)
        ensures
            r.name_spec() == metadata_name(),
            r.provider_spec() == ServiceProvider::Metadata,
            self@[metadata_name()] == r.provider_spec(),
    {
        proof {
            use_type_invariant(self);
            lemma_service_map(self.services@);
            reveal_strlit("metadata");
        }
        match self.service("metadata") {
            Some(service) => service,
            None => {
                proof {
                    assert(false);
                }
                &self.services[0]
            },
        }
    }
}

impl Default for Payload {
    /// The payload with the `metadata`, `neuroscope`, `neuron2graph` and
    /// `neuron2graph-search` services.
    fn default() -> (r: Self)
        ensures
            r@ == Map::<Seq<char>, ServiceProvider>::empty().insert(
                metadata_name(),
                ServiceProvider::Metadata,
            ).insert("neuroscope"@, ServiceProvider::Neuroscope).insert(
                "neuron2graph"@,
                ServiceProvider::Neuron2Graph,
            ).insert("neuron2graph-search"@, ServiceProvider::Neuron2GraphSearch),
    {
        proof {
            reveal_strlit("metadata");
            reveal_strlit("neuroscope");
            reveal_strlit("neuron2graph");
            reveal_strlit("neuron2graph-search");
        }
        assert("metadata"@.len() == 8);
        assert("neuroscope"@.len() == 10);
        assert("neuron2graph"@.len() == 12);
        assert("neuron2graph-search"@.len() == 19);
        let mut result = Self::initialize();
        let neuroscope_service = Service::new("neuroscope".to_owned(), ServiceProvider::Neuroscope);
        let added = result.add_service(neuroscope_service);
        let neuron2graph_service = Service::new(
            "neuron2graph".to_owned(),
            ServiceProvider::Neuron2Graph,
        );
        let added = result.add_service(neuron2graph_service);
        let search_service = Service::new(
            "neuron2graph-search".to_owned(),
            ServiceProvider::Neuron2GraphSearch,
        );
        let added = result.add_service(search_service);
        result
    }
}

} // verus!
