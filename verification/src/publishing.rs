//! The publishing intent: which service is to be published by which publisher.

use crate::declaration::{
    declared_port, find_service, first_port, last_port, lemma_first_service, lemma_last_port,
    names_find_their_ports, valid_declaration, Declaration, ServiceModel,
};
use crate::document::{
    bytes_of, document_in, document_tree, documents_hold_one_list, has_field, list, read_bytes,
    read_list, read_record, read_text, record, records_have_exactly_their_fields, text_value,
    trees, two_fields_stand_in_any_order, unknown_fields_are_rejected, values_are_read_by_name,
    SourceError, TomlTree, TomlValue,
};
use crate::failure::Failure;
use crate::names::{publisher_token, publisher_token_is_valid};
use crate::text::same_text;
use vstd::prelude::*;

verus! {

/// The publisher token of OpenSSH reverse forwarding.
pub const OPENSSH_REVERSE_TCP_PUBLISHER: &'static str = "openssh-reverse-tcp";

/// The publisher token of Tailscale Serve.
pub const TAILSCALE_SERVE_TCP_PUBLISHER: &'static str = "tailscale-serve-tcp";

/// The desire to publish a service through a publisher.
pub struct Publication {
    pub service: String,
    pub publisher: String,
}

/// The mathematical model of a publication.
pub struct PublicationModel {
    pub service: Seq<char>,
    pub publisher: Seq<char>,
}

impl DeepView for Publication {
    type V = PublicationModel;

    open spec fn deep_view(&self) -> PublicationModel {
        PublicationModel { service: self.service@, publisher: self.publisher@ }
    }
}

/// The desired publications, in the order of the file.
pub struct PublishingIntent {
    pub publications: Vec<Publication>,
}

impl View for PublishingIntent {
    type V = Seq<PublicationModel>;

    open spec fn view(&self) -> Seq<PublicationModel> {
        self.publications.deep_view()
    }
}

/// Whether a service of this name is declared.
pub open spec fn declares(services: Seq<ServiceModel>, name: Seq<char>) -> bool {
    exists|i: int| 0 <= i < services.len() && (#[trigger] services[i]).name == name
}

/// What a valid intent holds: publisher tokens, declared services, no publication
/// twice.
pub open spec fn valid_intent(
    publications: Seq<PublicationModel>,
    services: Seq<ServiceModel>,
) -> bool {
    &&& forall|i: int|
        0 <= i < publications.len() ==> publisher_token((#[trigger] publications[i]).publisher)
    &&& forall|i: int|
        0 <= i < publications.len() ==> declares(services, (#[trigger] publications[i]).service)
    &&& forall|i: int, j: int|
        0 <= i < j < publications.len() ==> (#[trigger] publications[i]) != (
        #[trigger] publications[j])
}

fn is_declared(declaration: &Declaration, name: &str) -> (declared: bool)
    ensures
        declared == declares(declaration@, name@),
{
    proof {
        lemma_first_service(declaration@, name@);
    }
    find_service(declaration, name).is_some()
}

fn same_publication(left: &Publication, right: &Publication) -> (same: bool)
    ensures
        same == (left.deep_view() == right.deep_view()),
{
    same_text(left.service.as_str(), right.service.as_str()) && same_text(
        left.publisher.as_str(),
        right.publisher.as_str(),
    )
}

/// Whether an intent is valid for a declaration.
pub fn publishing_intent_is_valid(
    publishing_intent: &PublishingIntent,
    declaration: &Declaration,
) -> (valid: bool)
    ensures
        valid == valid_intent(publishing_intent@, declaration@),
{
    let publications = &publishing_intent.publications;
    let mut i: usize = 0;
    while i < publications.len()
        invariant
            i <= publications.len(),
            *publications == publishing_intent.publications,
            forall|k: int|
                0 <= k < i ==> publisher_token((#[trigger] publishing_intent@[k]).publisher),
            forall|k: int|
                0 <= k < i ==> declares(declaration@, (#[trigger] publishing_intent@[k]).service),
            forall|k: int, m: int|
                0 <= k < m < i ==> (#[trigger] publishing_intent@[k]) != (
                #[trigger] publishing_intent@[m]),
        decreases publications.len() - i,
    {
        assert(publishing_intent@[i as int] == publications@[i as int].deep_view());
        if !publisher_token_is_valid(publications[i].publisher.as_str()) {
            return false;
        }
        if !is_declared(declaration, publications[i].service.as_str()) {
            return false;
        }
        let mut j: usize = 0;
        while j < i
            invariant
                j <= i < publications.len(),
                *publications == publishing_intent.publications,
                forall|k: int|
                    0 <= k < j ==> (#[trigger] publishing_intent@[k])
                        != publishing_intent@[i as int],
            decreases i - j,
        {
            if same_publication(&publications[j], &publications[i]) {
                assert(publishing_intent@[j as int] == publishing_intent@[i as int]);
                return false;
            }
            j = j + 1;
        }
        i = i + 1;
    }
    true
}

/// In a valid intent every publication has a declared port.
pub proof fn desired_services_are_declared(
    publications: Seq<PublicationModel>,
    services: Seq<ServiceModel>,
    i: int,
)
    requires
        valid_intent(publications, services),
        0 <= i < publications.len(),
    ensures
        first_port(services, publications[i].service) is Some,
        last_port(services, publications[i].service) is Some,
{
    lemma_first_service(services, publications[i].service);
    lemma_last_port(services, publications[i].service);
    assert(declares(services, publications[i].service));
}

/// Validity does not depend on the order of the publications.
pub proof fn validity_ignores_order(
    publications: Seq<PublicationModel>,
    services: Seq<ServiceModel>,
    reordered: Seq<PublicationModel>,
)
    requires
        valid_intent(publications, services),
        reordered.to_multiset() == publications.to_multiset(),
    ensures
        valid_intent(reordered, services),
{
    broadcast use vstd::seq_lib::group_to_multiset_ensures;

    assert forall|i: int| 0 <= i < reordered.len() implies publications.contains(
        #[trigger] reordered[i],
    ) by {
        assert(reordered.contains(reordered[i]));
        assert(reordered.to_multiset().count(reordered[i]) > 0);
    }
    assert forall|i: int| 0 <= i < reordered.len() implies publisher_token(
        (#[trigger] reordered[i]).publisher,
    ) && declares(services, reordered[i].service) by {
        let k = choose|k: int| 0 <= k < publications.len() && publications[k] == reordered[i];
        assert(publisher_token(publications[k].publisher));
        assert(declares(services, publications[k].service));
    }
    assert(publications.no_duplicates());
    publications.lemma_multiset_has_no_duplicates();
    reordered.lemma_multiset_has_no_duplicates_conv();
}

/// Whether a publisher has an operation behind it.
pub open spec fn supported(publisher: Seq<char>) -> bool {
    publisher == TAILSCALE_SERVE_TCP_PUBLISHER@ || publisher == OPENSSH_REVERSE_TCP_PUBLISHER@
}

/// Whether a publisher has an operation behind it.
pub fn publisher_is_operationally_supported(publisher: &str) -> (is_supported: bool)
    ensures
        is_supported == supported(publisher@),
{
    same_text(publisher, TAILSCALE_SERVE_TCP_PUBLISHER) || same_text(
        publisher,
        OPENSSH_REVERSE_TCP_PUBLISHER,
    )
}

/// Whether the publication `i` is a Serve publication.
pub open spec fn is_serve(publications: Seq<PublicationModel>, i: int) -> bool {
    publications[i].publisher == TAILSCALE_SERVE_TCP_PUBLISHER@
}

/// The port that publication `i` is about.
pub open spec fn publication_port(
    services: Seq<ServiceModel>,
    publications: Seq<PublicationModel>,
    i: int,
) -> Option<u16> {
    last_port(services, publications[i].service)
}

/// Whether some Serve publication has no port, or two of them have the same one.
pub open spec fn ambiguous_serve(
    services: Seq<ServiceModel>,
    publications: Seq<PublicationModel>,
) -> bool {
    ||| exists|i: int|
        0 <= i < publications.len() && #[trigger] is_serve(publications, i) && publication_port(
            services,
            publications,
            i,
        ) is None
    ||| exists|i: int, j: int|
        0 <= i < j < publications.len() && #[trigger] is_serve(publications, i)
            && #[trigger] is_serve(publications, j) && publication_port(services, publications, i)
            == publication_port(services, publications, j)
}

/// Whether the Serve publications cannot each have a port of their own.
pub fn tailscale_serve_tcp_publications_are_ambiguous(
    declaration: &Declaration,
    publishing_intent: &PublishingIntent,
) -> (ambiguous: bool)
    ensures
        ambiguous == ambiguous_serve(declaration@, publishing_intent@),
{
    let publications = &publishing_intent.publications;
    let ghost model = publishing_intent@;
    let mut i: usize = 0;
    while i < publications.len()
        invariant
            i <= publications.len(),
            *publications == publishing_intent.publications,
            model == publishing_intent@,
            forall|k: int|
                0 <= k < i && #[trigger] is_serve(model, k) ==> publication_port(
                    declaration@,
                    model,
                    k,
                ) is Some,
            forall|k: int, m: int|
                0 <= k < m < i && #[trigger] is_serve(model, k) && #[trigger] is_serve(model, m)
                    ==> publication_port(declaration@, model, k) != publication_port(
                    declaration@,
                    model,
                    m,
                ),
        decreases publications.len() - i,
    {
        assert(model[i as int] == publications@[i as int].deep_view());
        if same_text(publications[i].publisher.as_str(), TAILSCALE_SERVE_TCP_PUBLISHER) {
            assert(is_serve(model, i as int));
            let port = declared_port(declaration, publications[i].service.as_str());
            if port.is_none() {
                return true;
            }
            let mut j: usize = 0;
            while j < i
                invariant
                    j <= i < publications.len(),
                    *publications == publishing_intent.publications,
                    model == publishing_intent@,
                    is_serve(model, i as int),
                    port == publication_port(declaration@, model, i as int),
                    forall|k: int|
                        0 <= k < j && #[trigger] is_serve(model, k) ==> publication_port(
                            declaration@,
                            model,
                            k,
                        ) != port,
                decreases i - j,
            {
                assert(model[j as int] == publications@[j as int].deep_view());
                if same_text(publications[j].publisher.as_str(), TAILSCALE_SERVE_TCP_PUBLISHER)
                    && declared_port(declaration, publications[j].service.as_str()) == port {
                    assert(is_serve(model, j as int));
                    return true;
                }
                j = j + 1;
            }
        }
        i = i + 1;
    }
    false
}

/// In a valid project, the Serve publications are ambiguous exactly when two of
/// them are for services with the same port.
pub proof fn ambiguity_is_a_shared_port(
    services: Seq<ServiceModel>,
    publications: Seq<PublicationModel>,
)
    requires
        valid_declaration(services),
        valid_intent(publications, services),
    ensures
        ambiguous_serve(services, publications) <==> exists|i: int, j: int|
            0 <= i < j < publications.len() && #[trigger] is_serve(publications, i)
                && #[trigger] is_serve(publications, j) && publication_port(
                services,
                publications,
                i,
            ) == publication_port(services, publications, j),
{
    assert forall|i: int|
        0 <= i < publications.len() && #[trigger] is_serve(publications, i) implies publication_port(
        services,
        publications,
        i,
    ) is Some by {
        desired_services_are_declared(publications, services, i);
    }
}

/// The services to be published by a publisher, in order.
pub open spec fn desired_services(
    publications: Seq<PublicationModel>,
    publisher: Seq<char>,
) -> Seq<Seq<char>>
    decreases publications.len(),
{
    if publications.len() == 0 {
        Seq::empty()
    } else {
        let before = desired_services(publications.drop_last(), publisher);
        if publications.last().publisher == publisher {
            before.push(publications.last().service)
        } else {
            before
        }
    }
}

/// Lists the services to be published by a publisher.
pub fn services_desired_from(publishing_intent: &PublishingIntent, publisher: &str) -> (services:
    Vec<String>)
    ensures
        services.deep_view() == desired_services(publishing_intent@, publisher@),
{
    let publications = &publishing_intent.publications;
    let ghost model = publishing_intent@;
    let mut services: Vec<String> = Vec::new();
    let mut i: usize = 0;
    assert(services.deep_view() =~= Seq::empty());
    while i < publications.len()
        invariant
            i <= publications.len(),
            *publications == publishing_intent.publications,
            model == publishing_intent@,
            services.deep_view() == desired_services(model.take(i as int), publisher@),
        decreases publications.len() - i,
    {
        assert(model.take(i + 1).drop_last() =~= model.take(i as int));
        assert(model.take(i + 1).last() == publications@[i as int].deep_view());
        if same_text(publications[i].publisher.as_str(), publisher) {
            let ghost before = services.deep_view();
            services.push(publications[i].service.clone());
            assert(services.deep_view() =~= before.push(publications@[i as int].service@));
        }
        i = i + 1;
    }
    assert(model.take(model.len() as int) =~= model);
    services
}

/// Lists the names of the declared services.
pub fn declared_services(declaration: &Declaration) -> (names: Vec<String>)
    ensures
        names.deep_view() == service_names(declaration@),
{
    let services = &declaration.services;
    let mut names: Vec<String> = Vec::new();
    let mut i: usize = 0;
    while i < services.len()
        invariant
            i <= services.len(),
            *services == declaration.services,
            names.deep_view() == service_names(declaration@.take(i as int)),
        decreases services.len() - i,
    {
        let ghost before = names.deep_view();
        names.push(services[i].name.clone());
        i = i + 1;
        assert(names.deep_view() =~= before.push(services@[i - 1].name@));
        assert(declaration@.take(i as int) =~= declaration@.take(i - 1).push(
            services@[i - 1].deep_view(),
        ));
        assert(names.deep_view() =~= service_names(declaration@.take(i as int)));
    }
    assert(declaration@.take(declaration@.len() as int) =~= declaration@);
    names
}

/// The names of the declared services.
pub open spec fn service_names(services: Seq<ServiceModel>) -> Seq<Seq<char>> {
    services.map_values(|service: ServiceModel| service.name)
}

/// Whether a publication is desired.
pub open spec fn desires(
    publications: Seq<PublicationModel>,
    service: Seq<char>,
    publisher: Seq<char>,
) -> bool {
    publications.contains(PublicationModel { service, publisher })
}

/// The port of the selected publication, when its service is declared and the
/// publication is desired.
pub open spec fn selection(
    services: Seq<ServiceModel>,
    publications: Seq<PublicationModel>,
    service: Seq<char>,
    publisher: Seq<char>,
) -> Result<u16, Failure> {
    match first_port(services, service) {
        None => Err(Failure::ServiceNotDeclared),
        Some(port) => if desires(publications, service, publisher) {
            Ok(port)
        } else {
            Err(Failure::PublicationNotDesired)
        },
    }
}

/// Selects one desired publication by its exact service and publisher.
pub fn select(
    declaration: &Declaration,
    publishing_intent: &PublishingIntent,
    service: &str,
    publisher: &str,
) -> (port: Result<u16, Failure>)
    ensures
        port == selection(declaration@, publishing_intent@, service@, publisher@),
{
    let port: u16 = match find_service(declaration, service) {
        None => {
            return Err(Failure::ServiceNotDeclared);
        },
        Some(i) => declaration.services[i].port,
    };
    let publications = &publishing_intent.publications;
    let mut i: usize = 0;
    while i < publications.len()
        invariant
            i <= publications.len(),
            *publications == publishing_intent.publications,
            first_port(declaration@, service@) == Some(port),
            forall|k: int|
                0 <= k < i ==> (#[trigger] publishing_intent@[k]) != (PublicationModel {
                    service: service@,
                    publisher: publisher@,
                }),
        decreases publications.len() - i,
    {
        if same_text(publications[i].service.as_str(), service) && same_text(
            publications[i].publisher.as_str(),
            publisher,
        ) {
            assert(publishing_intent@[i as int] == (PublicationModel {
                service: service@,
                publisher: publisher@,
            }));
            return Ok(port);
        }
        i = i + 1;
    }
    Err(Failure::PublicationNotDesired)
}

/// The publication that a record describes.
pub open spec fn publication_in(tree: TomlTree) -> Option<PublicationModel> {
    match record(tree, seq!["service"@, "publisher"@]) {
        Some(values) => match (text_value(values[0]), text_value(values[1])) {
            (Some(service), Some(publisher)) => Some(PublicationModel { service, publisher }),
            _ => None,
        },
        None => None,
    }
}

/// The publications that a document lists.
pub open spec fn publications_in(tree: TomlTree) -> Option<Seq<PublicationModel>> {
    match list(tree, "publications"@) {
        Some(items) => if forall|i: int|
            0 <= i < items.len() ==> publication_in(#[trigger] items[i]) is Some {
            Some(items.map_values(|item: TomlTree| publication_in(item)->0))
        } else {
            None
        },
        None => None,
    }
}

fn read_publication(value: &TomlValue) -> (publication: Option<Publication>)
    ensures
        publication.deep_view() == publication_in(value.tree()),
{
    let names: [&str; 2] = ["service", "publisher"];
    let names: &[&str] = names.as_slice();
    assert(names.deep_view() =~= seq!["service"@, "publisher"@]);
    match read_record(value, names) {
        Some(values) => {
            assert(trees(values@)[0] == values@[0].tree());
            assert(trees(values@)[1] == values@[1].tree());
            match (read_text(values[0]), read_text(values[1])) {
                (Some(service), Some(publisher)) => Some(Publication { service, publisher }),
                _ => None,
            }
        },
        None => None,
    }
}

/// Reads the publications that a document lists.
pub fn decode_publishing_intent(document: &TomlValue) -> (publishing_intent: Option<
    PublishingIntent,
>)
    ensures
        match publishing_intent {
            Some(publishing_intent) => publications_in(document.tree()) == Some(publishing_intent@),
            None => publications_in(document.tree()) is None,
        },
{
    match read_list(document, "publications") {
        Some(items) => {
            let ghost all = trees(items@);
            let mut publications: Vec<Publication> = Vec::new();
            let mut i: usize = 0;
            while i < items.len()
                invariant
                    i <= items.len(),
                    all == trees(items@),
                    list(document.tree(), "publications"@) == Some(all),
                    publications.len() == i,
                    forall|j: int|
                        0 <= j < i ==> publication_in(#[trigger] all[j]) == Some(
                            publications@[j].deep_view(),
                        ),
                decreases items.len() - i,
            {
                assert(all[i as int] == items@[i as int].tree());
                match read_publication(items[i]) {
                    Some(publication) => publications.push(publication),
                    None => {
                        assert(publication_in(all[i as int]) is None);
                        return None;
                    },
                }
                i = i + 1;
            }
            let publishing_intent = PublishingIntent { publications };
            assert(publishing_intent@ =~= all.map_values(
                |item: TomlTree| publication_in(item)->0,
            ));
            Some(publishing_intent)
        },
        None => None,
    }
}

/// The intent in a document, or why there is none.
pub open spec fn intent_in(
    document: Result<TomlTree, SourceError>,
    services: Seq<ServiceModel>,
) -> Result<Seq<PublicationModel>, Failure> {
    match document {
        Err(SourceError::NotUtf8) => Err(Failure::PublishingNotUtf8),
        Err(SourceError::NotToml) => Err(Failure::InvalidPublishing),
        Ok(tree) => match publications_in(tree) {
            Some(publications) => if valid_intent(publications, services) {
                Ok(publications)
            } else {
                Err(Failure::InvalidPublishing)
            },
            None => Err(Failure::InvalidPublishing),
        },
    }
}

/// The intent in the bytes of a file, if the file could be read.
pub open spec fn loaded_intent(
    contents: Option<Seq<u8>>,
    services: Seq<ServiceModel>,
) -> Result<Seq<PublicationModel>, Failure> {
    match contents {
        None => Err(Failure::PublishingUnreadable),
        Some(bytes) => intent_in(document_in(bytes), services),
    }
}

/// The mathematical model of a result.
pub open spec fn intent_result(result: Result<PublishingIntent, Failure>) -> Result<
    Seq<PublicationModel>,
    Failure,
> {
    match result {
        Ok(publishing_intent) => Ok(publishing_intent@),
        Err(failure) => Err(failure),
    }
}

/// Checks the document that a publishing file holds.
pub fn check_publishing_intent(
    document: Result<TomlValue, SourceError>,
    declaration: &Declaration,
) -> (result: Result<PublishingIntent, Failure>)
    ensures
        intent_result(result) == intent_in(document_tree(document), declaration@),
{
    match document {
        Err(SourceError::NotUtf8) => Err(Failure::PublishingNotUtf8),
        Err(SourceError::NotToml) => Err(Failure::InvalidPublishing),
        Ok(value) => match decode_publishing_intent(&value) {
            Some(publishing_intent) => if publishing_intent_is_valid(
                &publishing_intent,
                declaration,
            ) {
                Ok(publishing_intent)
            } else {
                Err(Failure::InvalidPublishing)
            },
            None => Err(Failure::InvalidPublishing),
        },
    }
}

/// Reads an intent from the contents of its file, `None` when the file could not
/// be read.
pub fn load_publishing_intent(contents: &Option<Vec<u8>>, declaration: &Declaration) -> (result:
    Result<PublishingIntent, Failure>)
    ensures
        intent_result(result) == loaded_intent(bytes_of(*contents), declaration@),
{
    match contents {
        None => Err(Failure::PublishingUnreadable),
        Some(bytes) => check_publishing_intent(read_bytes(bytes), declaration),
    }
}

/// An intent is valid exactly when every publisher is a token, every service is the name of
/// a declared one, and no two publications, at different places, have the same service and
/// the same publisher.
pub proof fn intents_hold_no_publication_twice(
    publications: Seq<PublicationModel>,
    services: Seq<ServiceModel>,
)
    ensures
        valid_intent(publications, services) <==> {
            &&& forall|i: int|
                0 <= i < publications.len() ==> publisher_token(
                    (#[trigger] publications[i]).publisher,
                )
            &&& forall|i: int|
                0 <= i < publications.len() ==> service_names(services).contains(
                    (#[trigger] publications[i]).service,
                )
            &&& forall|i: int, j: int|
                0 <= i < j < publications.len() ==> ((#[trigger] publications[i]).service != (
                #[trigger] publications[j]).service || publications[i].publisher
                    != publications[j].publisher)
        },
{
    assert forall|i: int| 0 <= i < publications.len() implies declares(
        services,
        (#[trigger] publications[i]).service,
    ) == service_names(services).contains(publications[i].service) by {
        lemma_names_are_declared(services, publications[i].service);
    }
    assert forall|i: int, j: int| 0 <= i < j < publications.len() implies (publications[i]
        != publications[j]) == ((#[trigger] publications[i]).service != (
    #[trigger] publications[j]).service || publications[i].publisher
        != publications[j].publisher) by {}
    if valid_intent(publications, services) {
        assert forall|i: int| 0 <= i < publications.len() implies service_names(services).contains(
            (#[trigger] publications[i]).service,
        ) by {
            assert(declares(services, publications[i].service));
        }
        assert forall|i: int, j: int| 0 <= i < j < publications.len() implies ((
        #[trigger] publications[i]).service != (#[trigger] publications[j]).service
            || publications[i].publisher != publications[j].publisher) by {
            assert(publications[i] != publications[j]);
        }
    }
}

proof fn lemma_names_are_declared(services: Seq<ServiceModel>, name: Seq<char>)
    ensures
        declares(services, name) == service_names(services).contains(name),
{
    let names = service_names(services);
    if declares(services, name) {
        let i = choose|i: int| 0 <= i < services.len() && (#[trigger] services[i]).name == name;
        assert(names[i] == name);
    }
    if names.contains(name) {
        let i = choose|i: int| 0 <= i < names.len() && names[i] == name;
        assert(services[i].name == name);
    }
}

/// The names of the services are theirs, one for one and in order.
pub proof fn names_are_listed_in_order(services: Seq<ServiceModel>, i: int)
    ensures
        service_names(services).len() == services.len(),
        0 <= i < services.len() ==> service_names(services)[i] == services[i].name,
{
}

/// There is an operation behind two publishers and no other.
pub proof fn two_publishers_are_supported(publisher: Seq<char>)
    ensures
        supported(publisher) <==> publisher == "tailscale-serve-tcp"@ || publisher
            == "openssh-reverse-tcp"@,
        TAILSCALE_SERVE_TCP_PUBLISHER@ == "tailscale-serve-tcp"@,
        OPENSSH_REVERSE_TCP_PUBLISHER@ == "openssh-reverse-tcp"@,
        "tailscale-serve-tcp"@ != "openssh-reverse-tcp"@,
{
    reveal_strlit("tailscale-serve-tcp");
    reveal_strlit("openssh-reverse-tcp");
    assert("tailscale-serve-tcp"@[0] == 't' && "openssh-reverse-tcp"@[0] == 'o');
}

/// In a valid project the Serve publications are ambiguous exactly when two of them, at
/// different places, are for services that declare the same port. What other publishers do
/// with that port does not matter.
pub proof fn serve_publications_need_ports_of_their_own(
    services: Seq<ServiceModel>,
    publications: Seq<PublicationModel>,
)
    requires
        valid_declaration(services),
        valid_intent(publications, services),
    ensures
        ambiguous_serve(services, publications) <==> exists|i: int, j: int|
            0 <= i < j < publications.len() && (#[trigger] publications[i]).publisher
                == "tailscale-serve-tcp"@ && (#[trigger] publications[j]).publisher
                == "tailscale-serve-tcp"@ && last_port(services, publications[i].service)
                == last_port(services, publications[j].service),
{
    ambiguity_is_a_shared_port(services, publications);
    if ambiguous_serve(services, publications) {
        let (i, j) = choose|i: int, j: int|
            0 <= i < j < publications.len() && #[trigger] is_serve(publications, i)
                && #[trigger] is_serve(publications, j) && publication_port(
                services,
                publications,
                i,
            ) == publication_port(services, publications, j);
        assert(publications[i].publisher == "tailscale-serve-tcp"@);
        assert(publications[j].publisher == "tailscale-serve-tcp"@);
    }
    if exists|i: int, j: int|
        0 <= i < j < publications.len() && (#[trigger] publications[i]).publisher
            == "tailscale-serve-tcp"@ && (#[trigger] publications[j]).publisher
            == "tailscale-serve-tcp"@ && last_port(services, publications[i].service) == last_port(
            services,
            publications[j].service,
        ) {
        let (i, j) = choose|i: int, j: int|
            0 <= i < j < publications.len() && (#[trigger] publications[i]).publisher
                == "tailscale-serve-tcp"@ && (#[trigger] publications[j]).publisher
                == "tailscale-serve-tcp"@ && last_port(services, publications[i].service)
                == last_port(services, publications[j].service);
        assert(is_serve(publications, i) && is_serve(publications, j));
    }
}

/// The services that a publisher is desired for are those of its own publications, each as
/// often as it is listed and in that order.
pub proof fn desired_services_are_listed_in_order(
    left: Seq<PublicationModel>,
    right: Seq<PublicationModel>,
    publication: PublicationModel,
    publisher: Seq<char>,
)
    ensures
        desired_services(Seq::empty(), publisher).len() == 0,
        desired_services(seq![publication], publisher) == if publication.publisher == publisher {
            seq![publication.service]
        } else {
            Seq::<Seq<char>>::empty()
        },
        desired_services(left + right, publisher) == desired_services(left, publisher)
            + desired_services(right, publisher),
    decreases right.len(),
{
    reveal_with_fuel(desired_services, 2);
    let one = seq![publication];
    assert(one.drop_last() =~= Seq::empty());
    assert(one.last() == publication);
    assert(desired_services(one, publisher) =~= if publication.publisher == publisher {
        seq![publication.service]
    } else {
        Seq::<Seq<char>>::empty()
    });
    if right.len() == 0 {
        assert(left + right =~= left);
        assert(desired_services(left, publisher) + desired_services(right, publisher)
            =~= desired_services(left, publisher));
    } else {
        desired_services_are_listed_in_order(left, right.drop_last(), publication, publisher);
        assert((left + right).drop_last() =~= left + right.drop_last());
        assert((left + right).last() == right.last());
        assert(desired_services(left + right, publisher) =~= desired_services(left, publisher)
            + desired_services(right, publisher));
    }
}

/// A publication is selected by its exact service and publisher. A service that is not
/// declared is told apart from a publication that is not desired, and what is selected is
/// the port that the service declares.
pub proof fn selections_are_exact(
    services: Seq<ServiceModel>,
    publications: Seq<PublicationModel>,
    service: Seq<char>,
    publisher: Seq<char>,
    i: int,
)
    requires
        valid_declaration(services),
    ensures
        !service_names(services).contains(service) ==> selection(
            services,
            publications,
            service,
            publisher,
        ) == Err::<u16, Failure>(Failure::ServiceNotDeclared),
        0 <= i < services.len() && services[i].name == service ==> selection(
            services,
            publications,
            service,
            publisher,
        ) == if exists|k: int|
            0 <= k < publications.len() && (#[trigger] publications[k]).service == service
                && publications[k].publisher == publisher {
            Ok::<u16, Failure>(services[i].port)
        } else {
            Err::<u16, Failure>(Failure::PublicationNotDesired)
        },
{
    lemma_names_are_declared(services, service);
    names_find_their_ports(services, service, i);
    let wanted = PublicationModel { service, publisher };
    if publications.contains(wanted) {
        let k = choose|k: int| 0 <= k < publications.len() && publications[k] == wanted;
        assert(publications[k].service == service && publications[k].publisher == publisher);
    }
    if exists|k: int|
        0 <= k < publications.len() && (#[trigger] publications[k]).service == service
            && publications[k].publisher == publisher {
        let k = choose|k: int|
            0 <= k < publications.len() && (#[trigger] publications[k]).service == service
                && publications[k].publisher == publisher;
        assert(publications[k] == wanted);
    }
}

/// A publication is read from the two fields of its record, `service` and `publisher`, in a
/// table in either order, and in an array in this order.
pub proof fn publications_are_read_from_their_fields(service: Seq<char>, publisher: Seq<char>)
    ensures
        ({
            let one = ("service"@, TomlTree::Text(service));
            let other = ("publisher"@, TomlTree::Text(publisher));
            let read = Some(PublicationModel { service, publisher });
            &&& publication_in(TomlTree::Table(seq![one, other])) == read
            &&& publication_in(TomlTree::Table(seq![other, one])) == read
            &&& publication_in(TomlTree::Array(seq![one.1, other.1])) == read
        }),
{
    reveal_strlit("service");
    reveal_strlit("publisher");
    assert("service"@[0] == 's' && "publisher"@[0] == 'p');
    two_fields_stand_in_any_order(
        "service"@,
        "publisher"@,
        TomlTree::Text(service),
        TomlTree::Text(publisher),
    );
}

/// The publications of a document are those of its list `publications`, one for one and in
/// their order. One item that is no publication makes the document unreadable, and so does
/// any field of another name.
pub proof fn documents_list_their_publications(
    items: Seq<TomlTree>,
    other: Seq<char>,
    value: TomlTree,
)
    ensures
        publications_in(TomlTree::Table(Seq::empty())) == Some(Seq::<PublicationModel>::empty()),
        match publications_in(TomlTree::Table(seq![("publications"@, TomlTree::Array(items))])) {
            Some(publications) => publications.len() == items.len() && forall|i: int|
                0 <= i < items.len() ==> publication_in(#[trigger] items[i]) == Some(
                    publications[i],
                ),
            None => exists|i: int|
                0 <= i < items.len() && publication_in(#[trigger] items[i]) is None,
        },
        other != "publications"@ ==> publications_in(
            TomlTree::Table(seq![(other, value)]),
        ) is None,
{
    documents_hold_one_list("publications"@, TomlTree::Array(items), other, value);
    documents_hold_one_list("publications"@, value, other, value);
    let nothing = Seq::<TomlTree>::empty();
    assert(nothing.map_values(|item: TomlTree| publication_in(item)->0)
        =~= Seq::<PublicationModel>::empty());
}

/// Each way in which a publishing file can be wrong is reported as what it is, and a file is
/// accepted exactly when what it lists is valid for the declared services.
pub proof fn publishing_files_are_judged(contents: Option<Seq<u8>>, services: Seq<ServiceModel>)
    ensures
        contents is None ==> loaded_intent(contents, services) == Err::<
            Seq<PublicationModel>,
            Failure,
        >(Failure::PublishingUnreadable),
        contents matches Some(bytes) ==> loaded_intent(contents, services) == match document_in(
            bytes,
        ) {
            Err(SourceError::NotUtf8) => Err(Failure::PublishingNotUtf8),
            Err(SourceError::NotToml) => Err(Failure::InvalidPublishing),
            Ok(tree) => if publications_in(tree) is Some && valid_intent(
                publications_in(tree)->0,
                services,
            ) {
                Ok(publications_in(tree)->0)
            } else {
                Err(Failure::InvalidPublishing)
            },
        },
{
}

/// A publication is desired exactly when some entry has its very service and publisher.
pub proof fn desires_are_exact(
    publications: Seq<PublicationModel>,
    service: Seq<char>,
    publisher: Seq<char>,
)
    ensures
        desires(publications, service, publisher) <==> exists|k: int|
            0 <= k < publications.len() && (#[trigger] publications[k]).service == service
                && publications[k].publisher == publisher,
{
    let wanted = PublicationModel { service, publisher };
    if publications.contains(wanted) {
        let k = choose|k: int| 0 <= k < publications.len() && publications[k] == wanted;
        assert(publications[k].service == service);
    }
    if exists|k: int|
        0 <= k < publications.len() && (#[trigger] publications[k]).service == service
            && publications[k].publisher == publisher {
        let k = choose|k: int|
            0 <= k < publications.len() && (#[trigger] publications[k]).service == service
                && publications[k].publisher == publisher;
        assert(publications[k] == wanted);
    }
}

/// The model of an intent is its publications, one for one and in order, each with its own
/// service and publisher, and the model of a result is that of what it holds.
pub proof fn intents_are_shown_as_they_are(intent: PublishingIntent, i: int, failure: Failure)
    ensures
        intent@.len() == intent.publications@.len(),
        0 <= i < intent@.len() ==> intent@[i].service == intent.publications@[i].service@
            && intent@[i].publisher == intent.publications@[i].publisher@,
        intent_result(Ok(intent)) == Ok::<Seq<PublicationModel>, Failure>(intent@),
        intent_result(Err(failure)) == Err::<Seq<PublicationModel>, Failure>(failure),
{
}

/// A publication has exactly the fields `service` and `publisher`: whatever is read as one
/// holds each of them with a text, and nothing else. An array is read by position.
pub proof fn publications_have_two_fields(
    entries: Seq<(Seq<char>, TomlTree)>,
    items: Seq<TomlTree>,
    tree: TomlTree,
    publication: PublicationModel,
)
    requires
        forall|j: int, m: int|
            0 <= j < m < entries.len() ==> (#[trigger] entries[j]).0 != (#[trigger] entries[m]).0,
    ensures
        publication_in(TomlTree::Table(entries)) == Some(publication) ==> {
            &&& has_field(entries, "service"@) && has_field(entries, "publisher"@)
            &&& forall|i: int|
                0 <= i < entries.len() ==> {
                    ||| #[trigger] entries[i] == ("service"@, TomlTree::Text(publication.service))
                    ||| entries[i] == ("publisher"@, TomlTree::Text(publication.publisher))
                }
        },
        publication_in(TomlTree::Array(items)) == Some(publication) <==> {
            &&& items.len() >= 2
            &&& items[0] == TomlTree::Text(publication.service)
            &&& items[1] == TomlTree::Text(publication.publisher)
        },
        !(tree is Table) && !(tree is Array) ==> publication_in(tree) is None,
{
    let names = seq!["service"@, "publisher"@];
    assert(names.len() == 2 && names[0] == "service"@ && names[1] == "publisher"@);
    if publication_in(TomlTree::Table(entries)) == Some(publication) {
        let values = record(TomlTree::Table(entries), names)->0;
        records_have_exactly_their_fields(entries, names);
        assert(has_field(entries, names[0]) && has_field(entries, names[1]));
        assert forall|i: int| 0 <= i < entries.len() implies ({
            ||| #[trigger] entries[i] == ("service"@, TomlTree::Text(publication.service))
            ||| entries[i] == ("publisher"@, TomlTree::Text(publication.publisher))
        }) by {
            assert(names.contains(entries[i].0));
            let k = choose|k: int| 0 <= k < names.len() && names[k] == entries[i].0;
            values_are_read_by_name(entries, names, values, i, k);
            assert(k == 0 || k == 1);
        }
    }
    if items.len() >= 2 {
        assert(record(TomlTree::Array(items), names) == Some(items.take(2)));
        assert(items.take(2)[0] == items[0] && items.take(2)[1] == items[1]);
    }
}

/// A document that lists publications is a table, and holds nothing but the list
/// `publications`.
pub proof fn intents_hold_nothing_else(entries: Seq<(Seq<char>, TomlTree)>, tree: TomlTree, i: int)
    ensures
        publications_in(TomlTree::Table(entries)) is Some && 0 <= i < entries.len()
            ==> entries[i].0 == "publications"@,
        !(tree is Table) ==> publications_in(tree) is None,
{
    if 0 <= i < entries.len() && entries[i].0 != "publications"@ {
        let names = seq!["publications"@];
        assert(!names.contains(entries[i].0)) by {
            if names.contains(entries[i].0) {
                let k = choose|k: int| 0 <= k < names.len() && names[k] == entries[i].0;
                assert(names[k] == "publications"@);
            }
        }
        unknown_fields_are_rejected(entries, names, i);
    }
}

} // verus!
