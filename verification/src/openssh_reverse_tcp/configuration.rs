//! The provider configuration: where each service is forwarded from.

use crate::document::{
    bytes_of, document_in, document_tree, documents_hold_one_list, has_field, list, port_value,
    read_bytes, read_list, read_port, read_record, read_text, record,
    records_have_exactly_their_fields, text_value, trees, unknown_fields_are_rejected,
    values_are_read_by_name, SourceError, TomlTree, TomlValue,
};
use crate::failure::Failure;
use crate::names::{
    host_is_valid, ipv4_address, ipv4_is_valid, service_name, service_name_is_valid, ssh_host,
    user_is_valid, user_name,
};
use crate::text::same_text;
use vstd::prelude::*;

verus! {

/// How a service is published: the SSH server, and the listener requested there.
pub struct ProviderPublication {
    pub service: String,
    pub host: String,
    pub user: String,
    pub ssh_port: u16,
    pub listen_address: String,
    pub listen_port: u16,
}

/// The mathematical model of a provider publication.
pub struct ProviderModel {
    pub service: Seq<char>,
    pub host: Seq<char>,
    pub user: Seq<char>,
    pub ssh_port: u16,
    pub listen_address: Seq<char>,
    pub listen_port: u16,
}

impl DeepView for ProviderPublication {
    type V = ProviderModel;

    open spec fn deep_view(&self) -> ProviderModel {
        ProviderModel {
            service: self.service@,
            host: self.host@,
            user: self.user@,
            ssh_port: self.ssh_port,
            listen_address: self.listen_address@,
            listen_port: self.listen_port,
        }
    }
}

impl ProviderPublication {
    /// A copy of the publication.
    pub fn copy(&self) -> (copied: ProviderPublication)
        ensures
            copied.deep_view() == self.deep_view(),
    {
        ProviderPublication {
            service: self.service.clone(),
            host: self.host.clone(),
            user: self.user.clone(),
            ssh_port: self.ssh_port,
            listen_address: self.listen_address.clone(),
            listen_port: self.listen_port,
        }
    }
}

/// The configured publications, in the order of the file.
pub struct ProviderConfiguration {
    pub publications: Vec<ProviderPublication>,
}

impl View for ProviderConfiguration {
    type V = Seq<ProviderModel>;

    open spec fn view(&self) -> Seq<ProviderModel> {
        self.publications.deep_view()
    }
}

/// What a valid provider publication holds.
pub open spec fn valid_publication(publication: ProviderModel) -> bool {
    &&& service_name(publication.service)
    &&& ssh_host(publication.host)
    &&& user_name(publication.user)
    &&& publication.ssh_port != 0
    &&& ipv4_address(publication.listen_address)
    &&& publication.listen_port >= 1024
}

/// Whether a provider publication is valid.
pub fn provider_publication_is_valid(publication: &ProviderPublication) -> (valid: bool)
    ensures
        valid == valid_publication(publication.deep_view()),
{
    service_name_is_valid(publication.service.as_str()) && host_is_valid(publication.host.as_str())
        && user_is_valid(publication.user.as_str()) && publication.ssh_port != 0 && ipv4_is_valid(
        publication.listen_address.as_str(),
    ) && publication.listen_port >= 1024
}

/// What a valid configuration holds: valid publications of declared services, no
/// service twice.
pub open spec fn valid_configuration(
    publications: Seq<ProviderModel>,
    declared: Seq<Seq<char>>,
) -> bool {
    &&& forall|i: int|
        0 <= i < publications.len() ==> valid_publication(#[trigger] publications[i])
            && declared.contains(publications[i].service)
    &&& forall|i: int, j: int|
        0 <= i < j < publications.len() ==> (#[trigger] publications[i]).service != (
        #[trigger] publications[j]).service
}

fn lists(names: &Vec<String>, name: &str) -> (listed: bool)
    ensures
        listed == names.deep_view().contains(name@),
{
    let mut i: usize = 0;
    while i < names.len()
        invariant
            i <= names.len(),
            forall|j: int| 0 <= j < i ==> (#[trigger] names.deep_view()[j]) != name@,
        decreases names.len() - i,
    {
        assert(names.deep_view()[i as int] == names@[i as int]@);
        if same_text(names[i].as_str(), name) {
            return true;
        }
        i = i + 1;
    }
    false
}

/// Whether a configuration is valid for the declared services.
pub fn configuration_is_valid(
    configuration: &ProviderConfiguration,
    declared_services: &Vec<String>,
) -> (valid: bool)
    ensures
        valid == valid_configuration(configuration@, declared_services.deep_view()),
{
    let publications = &configuration.publications;
    let ghost model = configuration@;
    let mut i: usize = 0;
    while i < publications.len()
        invariant
            i <= publications.len(),
            *publications == configuration.publications,
            model == configuration@,
            forall|k: int|
                0 <= k < i ==> valid_publication(#[trigger] model[k])
                    && declared_services.deep_view().contains(model[k].service),
            forall|k: int, m: int|
                0 <= k < m < i ==> (#[trigger] model[k]).service != (#[trigger] model[m]).service,
        decreases publications.len() - i,
    {
        assert(model[i as int] == publications@[i as int].deep_view());
        if !provider_publication_is_valid(&publications[i]) || !lists(
            declared_services,
            publications[i].service.as_str(),
        ) {
            return false;
        }
        let mut j: usize = 0;
        while j < i
            invariant
                j <= i < publications.len(),
                *publications == configuration.publications,
                model == configuration@,
                forall|k: int|
                    0 <= k < j ==> (#[trigger] model[k]).service != model[i as int].service,
            decreases i - j,
        {
            if same_text(publications[j].service.as_str(), publications[i].service.as_str()) {
                assert(model[j as int].service == model[i as int].service);
                return false;
            }
            j = j + 1;
        }
        i = i + 1;
    }
    true
}

/// The publication that is configured for a service.
pub open spec fn configured(publications: Seq<ProviderModel>, service: Seq<char>) -> Option<
    ProviderModel,
>
    decreases publications.len(),
{
    if publications.len() == 0 {
        None
    } else if publications.last().service == service {
        Some(publications.last())
    } else {
        configured(publications.drop_last(), service)
    }
}

fn find_configured(configuration: &ProviderConfiguration, service: &str) -> (found: Option<usize>)
    ensures
        match found {
            Some(i) => i < configuration.publications.len() && configured(configuration@, service@)
                == Some(configuration.publications@[i as int].deep_view()),
            None => configured(configuration@, service@) is None,
        },
{
    let publications = &configuration.publications;
    let ghost model = configuration@;
    let mut i: usize = publications.len();
    assert(model.take(i as int) =~= model);
    while i > 0
        invariant
            i <= publications.len(),
            *publications == configuration.publications,
            model == configuration@,
            configured(model, service@) == configured(model.take(i as int), service@),
        decreases i,
    {
        assert(model.take(i as int).drop_last() =~= model.take(i - 1));
        assert(model.take(i as int).last() == publications@[i - 1].deep_view());
        if same_text(publications[i - 1].service.as_str(), service) {
            return Some(i - 1);
        }
        i = i - 1;
    }
    None
}

/// The remote listener that a publication occupies. The requested bind address is no
/// part of it.
pub open spec fn remote_slot(publication: ProviderModel) -> (Seq<char>, Seq<char>, u16, u16) {
    (publication.host, publication.user, publication.ssh_port, publication.listen_port)
}

fn same_slot(left: &ProviderPublication, right: &ProviderPublication) -> (same: bool)
    ensures
        same == (remote_slot(left.deep_view()) == remote_slot(right.deep_view())),
{
    same_text(left.host.as_str(), right.host.as_str()) && same_text(
        left.user.as_str(),
        right.user.as_str(),
    ) && left.ssh_port == right.ssh_port && left.listen_port == right.listen_port
}

/// Whether the desired services before the last already take the slot of `publication`.
pub open spec fn slot_is_taken(
    publications: Seq<ProviderModel>,
    earlier: Seq<Seq<char>>,
    publication: ProviderModel,
) -> bool {
    exists|j: int|
        0 <= j < earlier.len() && (configured(publications, #[trigger] earlier[j]) matches Some(
            other,
        ) && remote_slot(other) == remote_slot(publication))
}

/// The first thing wrong with the desired services: one that is not configured, or
/// one whose remote slot an earlier one has taken.
pub open spec fn desired_problem(
    publications: Seq<ProviderModel>,
    desired: Seq<Seq<char>>,
) -> Option<Failure>
    decreases desired.len(),
{
    if desired.len() == 0 {
        None
    } else {
        match desired_problem(publications, desired.drop_last()) {
            Some(failure) => Some(failure),
            None => match configured(publications, desired.last()) {
                None => Some(Failure::ConfigurationUnresolved),
                Some(publication) => if slot_is_taken(
                    publications,
                    desired.drop_last(),
                    publication,
                ) {
                    Some(Failure::RemoteSlotsConflict)
                } else {
                    None
                },
            },
        }
    }
}

proof fn lemma_problem_stays(publications: Seq<ProviderModel>, desired: Seq<Seq<char>>, n: int)
    requires
        0 <= n <= desired.len(),
        desired_problem(publications, desired.take(n)) is Some,
    ensures
        desired_problem(publications, desired) == desired_problem(publications, desired.take(n)),
    decreases desired.len() - n,
{
    if n < desired.len() {
        assert(desired.take(n + 1).drop_last() =~= desired.take(n));
        lemma_problem_stays(publications, desired, n + 1);
    } else {
        assert(desired.take(n) =~= desired);
    }
}

/// Finds the first thing wrong with the desired services.
fn find_desired_problem(
    configuration: &ProviderConfiguration,
    desired_services: &Vec<String>,
) -> (problem: Option<Failure>)
    ensures
        problem == desired_problem(configuration@, desired_services.deep_view()),
{
    let publications = &configuration.publications;
    let ghost model = configuration@;
    let ghost desired = desired_services.deep_view();
    let mut i: usize = 0;
    while i < desired_services.len()
        invariant
            i <= desired_services.len(),
            *publications == configuration.publications,
            model == configuration@,
            desired == desired_services.deep_view(),
            desired_problem(model, desired.take(i as int)) is None,
        decreases desired_services.len() - i,
    {
        assert(desired.take(i + 1).drop_last() =~= desired.take(i as int));
        assert(desired.take(i + 1).last() == desired_services@[i as int]@);
        let found = match find_configured(configuration, desired_services[i].as_str()) {
            Some(found) => found,
            None => {
                proof {
                    lemma_problem_stays(model, desired, i + 1);
                }
                return Some(Failure::ConfigurationUnresolved);
            },
        };
        let mut j: usize = 0;
        while j < i
            invariant
                j <= i < desired_services.len(),
                *publications == configuration.publications,
                model == configuration@,
                desired == desired_services.deep_view(),
                found < publications.len(),
                desired_problem(model, desired.take(i as int)) is None,
                desired.take(i + 1).drop_last() == desired.take(i as int),
                desired.take(i + 1).last() == desired_services@[i as int]@,
                configured(model, desired[i as int]) == Some(
                    publications@[found as int].deep_view(),
                ),
                forall|k: int|
                    0 <= k < j ==> !(configured(model, #[trigger] desired.take(i as int)[k]) matches Some(
                        other,
                    ) && remote_slot(other) == remote_slot(
                        publications@[found as int].deep_view(),
                    )),
            decreases i - j,
        {
            assert(desired.take(i as int)[j as int] == desired_services@[j as int]@);
            if let Some(other) = find_configured(configuration, desired_services[j].as_str()) {
                if same_slot(&publications[other], &publications[found]) {
                    proof {
                        assert(slot_is_taken(
                            model,
                            desired.take(i as int),
                            publications@[found as int].deep_view(),
                        ));
                        lemma_problem_stays(model, desired, i + 1);
                    }
                    return Some(Failure::RemoteSlotsConflict);
                }
            }
            j = j + 1;
        }
        i = i + 1;
    }
    assert(desired.take(desired.len() as int) =~= desired);
    None
}

/// When nothing is wrong with the desired services, each is configured and no two of
/// them share a remote slot, whatever addresses they bind.
pub proof fn resolved_slots_are_distinct(
    publications: Seq<ProviderModel>,
    desired: Seq<Seq<char>>,
    i: int,
    j: int,
)
    requires
        desired_problem(publications, desired) is None,
        0 <= i < j < desired.len(),
    ensures
        configured(publications, desired[i]) is Some,
        configured(publications, desired[j]) is Some,
        remote_slot(configured(publications, desired[i])->0) != remote_slot(
            configured(publications, desired[j])->0,
        ),
    decreases desired.len(),
{
    let before = desired.drop_last();
    if j < desired.len() - 1 {
        resolved_slots_are_distinct(publications, before, i, j);
    } else {
        resolved_services_are_configured(publications, before, i);
        assert(before[i] == desired[i]);
    }
}

/// When nothing is wrong with the desired services, each of them is configured.
pub proof fn resolved_services_are_configured(
    publications: Seq<ProviderModel>,
    desired: Seq<Seq<char>>,
    i: int,
)
    requires
        desired_problem(publications, desired) is None,
        0 <= i < desired.len(),
    ensures
        configured(publications, desired[i]) is Some,
    decreases desired.len(),
{
    if i < desired.len() - 1 {
        resolved_services_are_configured(publications, desired.drop_last(), i);
    }
}

/// The provider publication that a record describes.
pub open spec fn provider_publication_in(tree: TomlTree) -> Option<ProviderModel> {
    match record(
        tree,
        seq!["service"@, "host"@, "user"@, "ssh_port"@, "listen_address"@, "listen_port"@],
    ) {
        Some(values) => match (
            text_value(values[0]),
            text_value(values[1]),
            text_value(values[2]),
            port_value(values[3]),
            text_value(values[4]),
            port_value(values[5]),
        ) {
            (
                Some(service),
                Some(host),
                Some(user),
                Some(ssh_port),
                Some(listen_address),
                Some(listen_port),
            ) => Some(
                ProviderModel { service, host, user, ssh_port, listen_address, listen_port },
            ),
            _ => None,
        },
        None => None,
    }
}

/// The provider publications that a document lists.
pub open spec fn provider_publications_in(tree: TomlTree) -> Option<Seq<ProviderModel>> {
    match list(tree, "publications"@) {
        Some(items) => if forall|i: int|
            0 <= i < items.len() ==> provider_publication_in(#[trigger] items[i]) is Some {
            Some(items.map_values(|item: TomlTree| provider_publication_in(item)->0))
        } else {
            None
        },
        None => None,
    }
}

fn read_provider_publication(value: &TomlValue) -> (publication: Option<ProviderPublication>)
    ensures
        publication.deep_view() == provider_publication_in(value.tree()),
{
    let names: [&str; 6] = [
        "service",
        "host",
        "user",
        "ssh_port",
        "listen_address",
        "listen_port",
    ];
    let names: &[&str] = names.as_slice();
    assert(names.deep_view()
        =~= seq!["service"@, "host"@, "user"@, "ssh_port"@, "listen_address"@, "listen_port"@]);
    match read_record(value, names) {
        Some(values) => {
            assert forall|i: int| 0 <= i < 6 implies #[trigger] trees(values@)[i]
                == values@[i].tree() by {}
            match (
                read_text(values[0]),
                read_text(values[1]),
                read_text(values[2]),
                read_port(values[3]),
                read_text(values[4]),
                read_port(values[5]),
            ) {
                (
                    Some(service),
                    Some(host),
                    Some(user),
                    Some(ssh_port),
                    Some(listen_address),
                    Some(listen_port),
                ) => Some(
                    ProviderPublication {
                        service,
                        host,
                        user,
                        ssh_port,
                        listen_address,
                        listen_port,
                    },
                ),
                _ => None,
            }
        },
        None => None,
    }
}

/// Reads the provider publications that a document lists.
pub fn decode_configuration(document: &TomlValue) -> (configuration: Option<ProviderConfiguration>)
    ensures
        match configuration {
            Some(configuration) => provider_publications_in(document.tree()) == Some(
                configuration@,
            ),
            None => provider_publications_in(document.tree()) is None,
        },
{
    match read_list(document, "publications") {
        Some(items) => {
            let ghost all = trees(items@);
            let mut publications: Vec<ProviderPublication> = Vec::new();
            let mut i: usize = 0;
            while i < items.len()
                invariant
                    i <= items.len(),
                    all == trees(items@),
                    list(document.tree(), "publications"@) == Some(all),
                    publications.len() == i,
                    forall|j: int|
                        0 <= j < i ==> provider_publication_in(#[trigger] all[j]) == Some(
                            publications@[j].deep_view(),
                        ),
                decreases items.len() - i,
            {
                assert(all[i as int] == items@[i as int].tree());
                match read_provider_publication(items[i]) {
                    Some(publication) => publications.push(publication),
                    None => {
                        assert(provider_publication_in(all[i as int]) is None);
                        return None;
                    },
                }
                i = i + 1;
            }
            let configuration = ProviderConfiguration { publications };
            assert(configuration@ =~= all.map_values(
                |item: TomlTree| provider_publication_in(item)->0,
            ));
            Some(configuration)
        },
        None => None,
    }
}

/// The configuration in a document that resolves every desired service, or why there
/// is none.
pub open spec fn resolved_in(
    document: Result<TomlTree, SourceError>,
    declared: Seq<Seq<char>>,
    desired: Seq<Seq<char>>,
) -> Result<Seq<ProviderModel>, Failure> {
    match document {
        Err(SourceError::NotUtf8) => Err(Failure::ConfigurationNotUtf8),
        Err(SourceError::NotToml) => Err(Failure::InvalidConfiguration),
        Ok(tree) => match provider_publications_in(tree) {
            None => Err(Failure::InvalidConfiguration),
            Some(publications) => if !valid_configuration(publications, declared) {
                Err(Failure::InvalidConfiguration)
            } else {
                match desired_problem(publications, desired) {
                    Some(failure) => Err(failure),
                    None => Ok(publications),
                }
            },
        },
    }
}

/// The configuration in the bytes of a file, if the file could be read.
pub open spec fn loaded_configuration(
    contents: Option<Seq<u8>>,
    declared: Seq<Seq<char>>,
    desired: Seq<Seq<char>>,
) -> Result<Seq<ProviderModel>, Failure> {
    match contents {
        None => Err(Failure::ConfigurationUnreadable),
        Some(bytes) => resolved_in(document_in(bytes), declared, desired),
    }
}

/// The mathematical model of a result.
pub open spec fn configuration_result(result: Result<ProviderConfiguration, Failure>) -> Result<
    Seq<ProviderModel>,
    Failure,
> {
    match result {
        Ok(configuration) => Ok(configuration@),
        Err(failure) => Err(failure),
    }
}

/// Checks the document that a provider file holds, and that it resolves every
/// desired service.
pub fn resolve_desired(
    document: Result<TomlValue, SourceError>,
    declared_services: &Vec<String>,
    desired_services: &Vec<String>,
) -> (result: Result<ProviderConfiguration, Failure>)
    ensures
        configuration_result(result) == resolved_in(
            document_tree(document),
            declared_services.deep_view(),
            desired_services.deep_view(),
        ),
{
    let configuration = match document {
        Err(SourceError::NotUtf8) => {
            return Err(Failure::ConfigurationNotUtf8);
        },
        Err(SourceError::NotToml) => {
            return Err(Failure::InvalidConfiguration);
        },
        Ok(value) => match decode_configuration(&value) {
            Some(configuration) => configuration,
            None => {
                return Err(Failure::InvalidConfiguration);
            },
        },
    };
    if !configuration_is_valid(&configuration, declared_services) {
        return Err(Failure::InvalidConfiguration);
    }
    match find_desired_problem(&configuration, desired_services) {
        Some(failure) => Err(failure),
        None => Ok(configuration),
    }
}

/// Reads a configuration from the contents of its file, `None` when the file could
/// not be read, and resolves every desired service in it.
pub fn load_and_resolve_desired(
    contents: &Option<Vec<u8>>,
    declared_services: &Vec<String>,
    desired_services: &Vec<String>,
) -> (result: Result<ProviderConfiguration, Failure>)
    ensures
        configuration_result(result) == loaded_configuration(
            bytes_of(*contents),
            declared_services.deep_view(),
            desired_services.deep_view(),
        ),
{
    match contents {
        None => Err(Failure::ConfigurationUnreadable),
        Some(bytes) => resolve_desired(read_bytes(bytes), declared_services, desired_services),
    }
}

/// The publication of a service in a resolved configuration.
pub open spec fn publication_for(
    resolved: Result<Seq<ProviderModel>, Failure>,
    service: Seq<char>,
) -> Result<ProviderModel, Failure> {
    match resolved {
        Err(failure) => Err(failure),
        Ok(publications) => match configured(publications, service) {
            Some(publication) => Ok(publication),
            None => Err(Failure::ConfigurationUnresolved),
        },
    }
}

impl ProviderConfiguration {
    /// The publication that is configured for a service.
    pub fn get(&self, service: &str) -> (publication: Result<ProviderPublication, Failure>)
        ensures
            provider_result(publication) == publication_for(Ok(self@), service@),
    {
        match find_configured(self, service) {
            Some(i) => Ok(self.publications[i].copy()),
            None => Err(Failure::ConfigurationUnresolved),
        }
    }
}

/// The mathematical model of a result.
pub open spec fn provider_result(result: Result<ProviderPublication, Failure>) -> Result<
    ProviderModel,
    Failure,
> {
    match result {
        Ok(publication) => Ok(publication.deep_view()),
        Err(failure) => Err(failure),
    }
}

/// Reads a configuration, resolves every desired service in it, and picks the
/// publication of the selected service.
pub fn load_and_resolve(
    contents: &Option<Vec<u8>>,
    selected_service: &str,
    declared_services: &Vec<String>,
    desired_services: &Vec<String>,
) -> (publication: Result<ProviderPublication, Failure>)
    ensures
        provider_result(publication) == publication_for(
            loaded_configuration(
                bytes_of(*contents),
                declared_services.deep_view(),
                desired_services.deep_view(),
            ),
            selected_service@,
        ),
{
    match load_and_resolve_desired(contents, declared_services, desired_services) {
        Ok(configuration) => configuration.get(selected_service),
        Err(failure) => Err(failure),
    }
}

/// Whatever a valid configuration holds for a service is valid and is about that service.
pub proof fn configured_publications_are_valid(
    publications: Seq<ProviderModel>,
    declared: Seq<Seq<char>>,
    service: Seq<char>,
)
    requires
        valid_configuration(publications, declared),
    ensures
        configured(publications, service) matches Some(publication) ==> valid_publication(
            publication,
        ) && publication.service == service && declared.contains(service),
    decreases publications.len(),
{
    if publications.len() > 0 {
        let before = publications.drop_last();
        assert(publications.last() == publications[publications.len() - 1]);
        assert forall|i: int| 0 <= i < before.len() implies valid_publication(#[trigger] before[i])
            && declared.contains(before[i].service) by {
            assert(before[i] == publications[i]);
        }
        assert forall|i: int, j: int| 0 <= i < j < before.len() implies (
        #[trigger] before[i]).service != (#[trigger] before[j]).service by {
            assert(before[i] == publications[i] && before[j] == publications[j]);
        }
        configured_publications_are_valid(before, declared, service);
    }
}

/// What a loaded configuration resolves is valid.
pub proof fn resolved_publications_are_valid(
    contents: Option<Seq<u8>>,
    declared: Seq<Seq<char>>,
    desired: Seq<Seq<char>>,
    service: Seq<char>,
)
    ensures
        publication_for(
            loaded_configuration(contents, declared, desired),
            service,
        ) matches Ok(publication) ==> valid_publication(publication) && publication.service
            == service,
        loaded_configuration(contents, declared, desired) matches Ok(publications)
            ==> valid_configuration(publications, declared) && desired_problem(
            publications,
            desired,
        ) is None,
{
    if let Ok(publications) = loaded_configuration(contents, declared, desired) {
        configured_publications_are_valid(publications, declared, service);
    }
}

/// A provider publication is valid exactly when its service can name a service, its host is
/// an SSH host, its user an SSH user, its SSH port is not zero, its listen address is an
/// IPv4 address, and its listen port is at least 1024.
pub proof fn provider_publications_have_bounds(publication: ProviderModel)
    ensures
        valid_publication(publication) <==> {
            &&& service_name(publication.service)
            &&& ssh_host(publication.host)
            &&& user_name(publication.user)
            &&& 1 <= publication.ssh_port <= 65535
            &&& ipv4_address(publication.listen_address)
            &&& 1024 <= publication.listen_port <= 65535
        },
{
}

/// A configuration is valid exactly when all of its publications are, each is for a declared
/// service, and no two of them, at different places, are for the same one.
pub proof fn configurations_hold_no_service_twice(
    publications: Seq<ProviderModel>,
    declared: Seq<Seq<char>>,
)
    ensures
        valid_configuration(publications, declared) <==> {
            &&& forall|i: int|
                0 <= i < publications.len() ==> valid_publication(#[trigger] publications[i])
            &&& forall|i: int|
                0 <= i < publications.len() ==> declared.contains(
                    (#[trigger] publications[i]).service,
                )
            &&& forall|i: int, j: int|
                0 <= i < publications.len() && 0 <= j < publications.len() && (
                #[trigger] publications[i]).service == (#[trigger] publications[j]).service
                    ==> i == j
        },
{
    if valid_configuration(publications, declared) {
        assert forall|i: int, j: int|
            0 <= i < publications.len() && 0 <= j < publications.len() && (
            #[trigger] publications[i]).service == (
            #[trigger] publications[j]).service implies i == j by {
            if i < j {
                assert(publications[i].service != publications[j].service);
            } else if j < i {
                assert(publications[j].service != publications[i].service);
            }
        }
    }
}

proof fn lemma_configured(publications: Seq<ProviderModel>, service: Seq<char>)
    ensures
        match configured(publications, service) {
            Some(publication) => exists|i: int|
                0 <= i < publications.len() && (#[trigger] publications[i]) == publication
                    && publication.service == service,
            None => forall|i: int|
                0 <= i < publications.len() ==> (#[trigger] publications[i]).service != service,
        },
    decreases publications.len(),
{
    if publications.len() > 0 {
        let before = publications.drop_last();
        lemma_configured(before, service);
        if publications.last().service == service {
            assert(publications[publications.len() - 1].service == service);
        } else {
            match configured(before, service) {
                Some(publication) => {
                    let i = choose|i: int|
                        0 <= i < before.len() && (#[trigger] before[i]) == publication
                            && publication.service == service;
                    assert(publications[i] == publication);
                },
                None => {
                    assert forall|i: int| 0 <= i < publications.len() implies (
                    #[trigger] publications[i]).service != service by {
                        if i < before.len() {
                            assert(before[i].service != service);
                        }
                    }
                },
            }
        }
    }
}

/// In a valid configuration looking up the service of a publication gives that publication,
/// and looking up any other service gives nothing.
pub proof fn services_find_their_publications(
    publications: Seq<ProviderModel>,
    declared: Seq<Seq<char>>,
    service: Seq<char>,
    i: int,
)
    requires
        valid_configuration(publications, declared),
    ensures
        0 <= i < publications.len() ==> configured(publications, publications[i].service) == Some(
            publications[i],
        ),
        (forall|k: int| 0 <= k < publications.len() ==> (#[trigger] publications[k]).service
            != service) ==> configured(publications, service) is None,
{
    lemma_configured(publications, service);
    if 0 <= i < publications.len() {
        lemma_configured(publications, publications[i].service);
        configurations_hold_no_service_twice(publications, declared);
    }
}

/// Whether the services at two places of a list are configured with the same host, user, SSH
/// port and listen port.
pub open spec fn collide(
    publications: Seq<ProviderModel>,
    desired: Seq<Seq<char>>,
    i: int,
    j: int,
) -> bool {
    &&& configured(publications, desired[i]) matches Some(left)
    &&& configured(publications, desired[j]) matches Some(right)
    &&& left.host == right.host
    &&& left.user == right.user
    &&& left.ssh_port == right.ssh_port
    &&& left.listen_port == right.listen_port
}

proof fn lemma_shared_slot(left: ProviderModel, right: ProviderModel)
    ensures
        remote_slot(left) == remote_slot(right) <==> left.host == right.host && left.user
            == right.user && left.ssh_port == right.ssh_port && left.listen_port
            == right.listen_port,
{
}

/// When every desired service is configured, the desired services are refused as conflicting
/// exactly when two of them, at different places, have the same host, the same user, the same
/// SSH port and the same listen port, whatever addresses they bind. Otherwise nothing is
/// wrong with them.
pub proof fn conflicts_are_shared_listeners(
    publications: Seq<ProviderModel>,
    desired: Seq<Seq<char>>,
)
    requires
        forall|i: int|
            0 <= i < desired.len() ==> configured(publications, #[trigger] desired[i]) is Some,
    ensures
        desired_problem(publications, desired) == Some(Failure::RemoteSlotsConflict) <==> exists|
            i: int,
            j: int,
        |
            0 <= i < j < desired.len() && #[trigger] collide(publications, desired, i, j),
        desired_problem(publications, desired) is None <==> forall|i: int, j: int|
            0 <= i < j < desired.len() ==> !#[trigger] collide(publications, desired, i, j),
    decreases desired.len(),
{
    if desired.len() > 0 {
        let before = desired.drop_last();
        let n = desired.len() - 1;
        assert forall|i: int| 0 <= i < before.len() implies configured(
            publications,
            #[trigger] before[i],
        ) is Some by {
            assert(desired[i] == before[i]);
        }
        conflicts_are_shared_listeners(publications, before);
        assert forall|i: int, j: int| 0 <= i < j < n implies collide(publications, before, i, j)
            == #[trigger] collide(publications, desired, i, j) by {
            assert(desired[i] == before[i] && desired[j] == before[j]);
        }
        let last = configured(publications, desired[n])->0;
        assert forall|i: int| 0 <= i < n implies #[trigger] collide(publications, desired, i, n) == (
        configured(publications, before[i]) matches Some(other) && remote_slot(other)
            == remote_slot(last)) by {
            assert(desired[i] == before[i]);
            lemma_shared_slot(configured(publications, desired[i])->0, last);
        }
        if desired_problem(publications, before) is None {
            if slot_is_taken(publications, before, last) {
                let i = choose|i: int|
                    0 <= i < before.len() && (configured(
                        publications,
                        #[trigger] before[i],
                    ) matches Some(other) && remote_slot(other) == remote_slot(last));
                assert(collide(publications, desired, i, n));
            } else {
                assert forall|i: int, j: int| 0 <= i < j < desired.len() implies !#[trigger] collide(
                    publications,
                    desired,
                    i,
                    j,
                ) by {
                    if j < n {
                        assert(!collide(publications, before, i, j));
                    } else {
                        assert(!(configured(publications, before[i]) matches Some(other)
                            && remote_slot(other) == remote_slot(last)));
                    }
                }
            }
        } else {
            let (i, j) = choose|i: int, j: int|
                0 <= i < j < before.len() && #[trigger] collide(publications, before, i, j);
            assert(collide(publications, desired, i, j));
        }
    }
}

/// Two forwards to one server with different listen ports, SSH ports, users or hosts never
/// conflict, and two that agree in all four always do.
pub proof fn different_listeners_do_not_conflict(
    publications: Seq<ProviderModel>,
    declared: Seq<Seq<char>>,
    i: int,
    j: int,
)
    requires
        valid_configuration(publications, declared),
        0 <= i < publications.len(),
        0 <= j < publications.len(),
        i != j,
    ensures
        ({
            let left = publications[i];
            let right = publications[j];
            desired_problem(publications, seq![left.service, right.service]) == if left.host
                == right.host && left.user == right.user && left.ssh_port == right.ssh_port
                && left.listen_port == right.listen_port {
                Some(Failure::RemoteSlotsConflict)
            } else {
                None
            }
        }),
{
    let left = publications[i];
    let right = publications[j];
    let desired = seq![left.service, right.service];
    assert(desired[0] == left.service && desired[1] == right.service && desired.len() == 2);
    services_find_their_publications(publications, declared, left.service, i);
    services_find_their_publications(publications, declared, right.service, j);
    conflicts_are_shared_listeners(publications, desired);
    if collide(publications, desired, 0, 1) {
        assert(desired_problem(publications, desired) == Some(Failure::RemoteSlotsConflict));
    } else {
        assert forall|a: int, b: int| 0 <= a < b < desired.len() implies !#[trigger] collide(
            publications,
            desired,
            a,
            b,
        ) by {}
    }
}

/// A desired service that is not configured is what is wrong, unless a conflict among those
/// before it is: the first thing wrong in the order of the services is the one reported.
pub proof fn first_problems_are_reported(
    publications: Seq<ProviderModel>,
    desired: Seq<Seq<char>>,
    service: Seq<char>,
    more: Seq<Seq<char>>,
)
    ensures
        desired_problem(publications, Seq::empty()) is None,
        desired_problem(publications, desired) is Some ==> desired_problem(
            publications,
            desired + more,
        ) == desired_problem(publications, desired),
        desired_problem(publications, desired) is None && configured(publications, service) is None
            ==> desired_problem(publications, desired.push(service) + more) == Some(
            Failure::ConfigurationUnresolved,
        ),
{
    assert((desired + more).take(desired.len() as int) =~= desired);
    if desired_problem(publications, desired) is Some {
        lemma_problem_stays(publications, desired + more, desired.len() as int);
    } else if configured(publications, service) is None {
        let longer = desired.push(service);
        assert(longer.drop_last() =~= desired);
        assert((longer + more).take(longer.len() as int) =~= longer);
        lemma_problem_stays(publications, longer + more, longer.len() as int);
    }
}

/// A provider publication is read from the six fields of its record: in a table each from the
/// field of its name, and in an array each from its place.
pub proof fn provider_publications_are_read_from_their_fields(
    entries: Seq<(Seq<char>, TomlTree)>,
    publication: ProviderModel,
    items: Seq<TomlTree>,
)
    requires
        forall|j: int, m: int|
            0 <= j < m < entries.len() ==> (#[trigger] entries[j]).0 != (#[trigger] entries[m]).0,
    ensures
        provider_publication_in(TomlTree::Table(entries)) == Some(publication) ==> forall|i: int|
            0 <= i < entries.len() ==> {
                let entry = #[trigger] entries[i];
                ||| entry == ("service"@, TomlTree::Text(publication.service))
                ||| entry == ("host"@, TomlTree::Text(publication.host))
                ||| entry == ("user"@, TomlTree::Text(publication.user))
                ||| entry.0 == "ssh_port"@ && port_value(entry.1) == Some(publication.ssh_port)
                ||| entry == ("listen_address"@, TomlTree::Text(publication.listen_address))
                ||| entry.0 == "listen_port"@ && port_value(entry.1) == Some(
                    publication.listen_port,
                )
            },
        provider_publication_in(TomlTree::Array(items)) == Some(publication) <==> {
            &&& items.len() >= 6
            &&& items[0] == TomlTree::Text(publication.service)
            &&& items[1] == TomlTree::Text(publication.host)
            &&& items[2] == TomlTree::Text(publication.user)
            &&& port_value(items[3]) == Some(publication.ssh_port)
            &&& items[4] == TomlTree::Text(publication.listen_address)
            &&& port_value(items[5]) == Some(publication.listen_port)
        },
{
    let names = seq![
        "service"@,
        "host"@,
        "user"@,
        "ssh_port"@,
        "listen_address"@,
        "listen_port"@,
    ];
    assert(names.len() == 6 && names[0] == "service"@ && names[1] == "host"@ && names[2] == "user"@
        && names[3] == "ssh_port"@ && names[4] == "listen_address"@ && names[5] == "listen_port"@);
    if provider_publication_in(TomlTree::Table(entries)) == Some(publication) {
        let values = record(TomlTree::Table(entries), names)->0;
        records_have_exactly_their_fields(entries, names);
        assert forall|i: int| 0 <= i < entries.len() implies ({
            let entry = #[trigger] entries[i];
            ||| entry == ("service"@, TomlTree::Text(publication.service))
            ||| entry == ("host"@, TomlTree::Text(publication.host))
            ||| entry == ("user"@, TomlTree::Text(publication.user))
            ||| entry.0 == "ssh_port"@ && port_value(entry.1) == Some(publication.ssh_port)
            ||| entry == ("listen_address"@, TomlTree::Text(publication.listen_address))
            ||| entry.0 == "listen_port"@ && port_value(entry.1) == Some(publication.listen_port)
        }) by {
            assert(names.contains(entries[i].0));
            let k = choose|k: int| 0 <= k < names.len() && names[k] == entries[i].0;
            values_are_read_by_name(entries, names, values, i, k);
            assert(k == 0 || k == 1 || k == 2 || k == 3 || k == 4 || k == 5);
        }
    }
    if items.len() >= 6 {
        assert(record(TomlTree::Array(items), names) == Some(items.take(6)));
        assert(items.take(6)[0] == items[0] && items.take(6)[1] == items[1] && items.take(6)[2]
            == items[2] && items.take(6)[3] == items[3] && items.take(6)[4] == items[4]
            && items.take(6)[5] == items[5]);
    }
}

/// The provider publications of a document are those of its list `publications`, one for one
/// and in their order.
pub proof fn documents_list_their_provider_publications(
    items: Seq<TomlTree>,
    other: Seq<char>,
    value: TomlTree,
)
    ensures
        provider_publications_in(TomlTree::Table(Seq::empty())) == Some(
            Seq::<ProviderModel>::empty(),
        ),
        match provider_publications_in(
            TomlTree::Table(seq![("publications"@, TomlTree::Array(items))]),
        ) {
            Some(publications) => publications.len() == items.len() && forall|i: int|
                0 <= i < items.len() ==> provider_publication_in(#[trigger] items[i]) == Some(
                    publications[i],
                ),
            None => exists|i: int|
                0 <= i < items.len() && provider_publication_in(#[trigger] items[i]) is None,
        },
        other != "publications"@ ==> provider_publications_in(
            TomlTree::Table(seq![(other, value)]),
        ) is None,
{
    documents_hold_one_list("publications"@, TomlTree::Array(items), other, value);
    documents_hold_one_list("publications"@, value, other, value);
    let nothing = Seq::<TomlTree>::empty();
    assert(nothing.map_values(|item: TomlTree| provider_publication_in(item)->0)
        =~= Seq::<ProviderModel>::empty());
}

/// Each way in which a provider file can be wrong is reported as what it is. A file is
/// accepted exactly when what it lists is valid for the declared services and nothing is
/// wrong with the desired ones.
pub proof fn provider_files_are_judged(
    contents: Option<Seq<u8>>,
    declared: Seq<Seq<char>>,
    desired: Seq<Seq<char>>,
    service: Seq<char>,
)
    ensures
        contents is None ==> loaded_configuration(contents, declared, desired) == Err::<
            Seq<ProviderModel>,
            Failure,
        >(Failure::ConfigurationUnreadable),
        contents matches Some(bytes) ==> loaded_configuration(contents, declared, desired)
            == match document_in(bytes) {
            Err(SourceError::NotUtf8) => Err(Failure::ConfigurationNotUtf8),
            Err(SourceError::NotToml) => Err(Failure::InvalidConfiguration),
            Ok(tree) => if provider_publications_in(tree) is None || !valid_configuration(
                provider_publications_in(tree)->0,
                declared,
            ) {
                Err(Failure::InvalidConfiguration)
            } else if desired_problem(provider_publications_in(tree)->0, desired) is Some {
                Err(desired_problem(provider_publications_in(tree)->0, desired)->0)
            } else {
                Ok(provider_publications_in(tree)->0)
            },
        },
        match loaded_configuration(contents, declared, desired) {
            Err(failure) => publication_for(
                loaded_configuration(contents, declared, desired),
                service,
            ) == Err::<ProviderModel, Failure>(failure),
            Ok(publications) => publication_for(
                loaded_configuration(contents, declared, desired),
                service,
            ) == if configured(publications, service) is Some {
                Ok::<ProviderModel, Failure>(configured(publications, service)->0)
            } else {
                Err::<ProviderModel, Failure>(Failure::ConfigurationUnresolved)
            },
        },
{
}

/// The model of a configuration is its publications, one for one and in order, each with its
/// own six fields, and the model of a result is that of what it holds.
pub proof fn configurations_are_shown_as_they_are(
    configuration: ProviderConfiguration,
    publication: ProviderPublication,
    i: int,
    failure: Failure,
)
    ensures
        configuration@.len() == configuration.publications@.len(),
        0 <= i < configuration@.len() ==> configuration@[i]
            == configuration.publications@[i].deep_view(),
        publication.deep_view().service == publication.service@,
        publication.deep_view().host == publication.host@,
        publication.deep_view().user == publication.user@,
        publication.deep_view().ssh_port == publication.ssh_port,
        publication.deep_view().listen_address == publication.listen_address@,
        publication.deep_view().listen_port == publication.listen_port,
        configuration_result(Ok(configuration)) == Ok::<Seq<ProviderModel>, Failure>(
            configuration@,
        ),
        configuration_result(Err(failure)) == Err::<Seq<ProviderModel>, Failure>(failure),
        provider_result(Ok(publication)) == Ok::<ProviderModel, Failure>(publication.deep_view()),
        provider_result(Err(failure)) == Err::<ProviderModel, Failure>(failure),
{
}

/// Whatever is read from a table as a provider publication has all six fields. Nothing but
/// tables and arrays is one.
pub proof fn provider_publications_have_six_fields(
    entries: Seq<(Seq<char>, TomlTree)>,
    tree: TomlTree,
)
    ensures
        provider_publication_in(TomlTree::Table(entries)) is Some ==> {
            &&& has_field(entries, "service"@) && has_field(entries, "host"@) && has_field(
                entries,
                "user"@,
            )
            &&& has_field(entries, "ssh_port"@) && has_field(entries, "listen_address"@)
                && has_field(entries, "listen_port"@)
        },
        !(tree is Table) && !(tree is Array) ==> provider_publication_in(tree) is None,
{
    let names = seq![
        "service"@,
        "host"@,
        "user"@,
        "ssh_port"@,
        "listen_address"@,
        "listen_port"@,
    ];
    assert(names.len() == 6 && names[0] == "service"@ && names[1] == "host"@ && names[2] == "user"@
        && names[3] == "ssh_port"@ && names[4] == "listen_address"@ && names[5] == "listen_port"@);
    records_have_exactly_their_fields(entries, names);
    if provider_publication_in(TomlTree::Table(entries)) is Some {
        assert(has_field(entries, names[0]) && has_field(entries, names[1]) && has_field(
            entries,
            names[2],
        ) && has_field(entries, names[3]) && has_field(entries, names[4]) && has_field(
            entries,
            names[5],
        ));
    }
}

/// A document that lists provider publications is a table, and holds nothing but the list
/// `publications`.
pub proof fn configurations_hold_nothing_else(
    entries: Seq<(Seq<char>, TomlTree)>,
    tree: TomlTree,
    i: int,
)
    ensures
        provider_publications_in(TomlTree::Table(entries)) is Some && 0 <= i < entries.len()
            ==> entries[i].0 == "publications"@,
        !(tree is Table) ==> provider_publications_in(tree) is None,
{
    if 0 <= i < entries.len() && entries[i].0 != "publications"@ {
        let names = seq!["publications"@];
        assert(!names.contains(entries[i].0)) by {
            if names.contains(entries[i].0) {
                let k = choose|k: int| 0 <= k < names.len() && names[k] == entries[i].0;
                assert(names[k] == "publications"@);
            }
        }
        unknown_fields_are_rejected(entries, names, i);
    }
}

/// A valid provider file in which every desired service is configured is refused exactly when
/// two of these, at different places, have the same host, user, SSH port and listen port, and
/// is refused as that. Otherwise it is accepted as it stands.
pub proof fn valid_files_are_refused_for_shared_listeners_alone(
    bytes: Seq<u8>,
    tree: TomlTree,
    publications: Seq<ProviderModel>,
    declared: Seq<Seq<char>>,
    desired: Seq<Seq<char>>,
)
    requires
        document_in(bytes) == Ok::<TomlTree, SourceError>(tree),
        provider_publications_in(tree) == Some(publications),
        valid_configuration(publications, declared),
        forall|i: int|
            0 <= i < desired.len() ==> configured(publications, #[trigger] desired[i]) is Some,
    ensures
        loaded_configuration(Some(bytes), declared, desired) == if exists|i: int, j: int|
            0 <= i < j < desired.len() && #[trigger] collide(publications, desired, i, j) {
            Err::<Seq<ProviderModel>, Failure>(Failure::RemoteSlotsConflict)
        } else {
            Ok::<Seq<ProviderModel>, Failure>(publications)
        },
{
    conflicts_are_shared_listeners(publications, desired);
}

} // verus!
