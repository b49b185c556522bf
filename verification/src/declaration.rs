//! The service declaration: which local services exist.

use crate::document::{
    bytes_of, document_in, document_tree, documents_hold_one_list, has_field, list, port_value,
    read_bytes, read_list, read_port, read_record, read_text, record,
    records_have_exactly_their_fields, text_value, trees, two_fields_stand_in_any_order,
    unknown_fields_are_rejected, values_are_read_by_name, SourceError, TomlTree, TomlValue,
};
use crate::failure::Failure;
use crate::names::{service_name, service_name_is_valid};
use crate::text::same_text;
use vstd::prelude::*;

verus! {

/// A local TCP service.
pub struct Service {
    pub name: String,
    pub port: u16,
}

/// The mathematical model of a service.
pub struct ServiceModel {
    pub name: Seq<char>,
    pub port: u16,
}

impl DeepView for Service {
    type V = ServiceModel;

    open spec fn deep_view(&self) -> ServiceModel {
        ServiceModel { name: self.name@, port: self.port }
    }
}

/// The declared services, in the order of the file.
pub struct Declaration {
    pub services: Vec<Service>,
}

impl View for Declaration {
    type V = Seq<ServiceModel>;

    open spec fn view(&self) -> Seq<ServiceModel> {
        self.services.deep_view()
    }
}

/// What a valid declaration holds: proper names, no port zero, no name twice.
pub open spec fn valid_declaration(services: Seq<ServiceModel>) -> bool {
    &&& forall|i: int|
        0 <= i < services.len() ==> service_name((#[trigger] services[i]).name) && services[i].port
            != 0
    &&& forall|i: int, j: int|
        0 <= i < j < services.len() ==> (#[trigger] services[i]).name != (
        #[trigger] services[j]).name
}

/// Whether a declaration is valid.
pub fn declaration_is_valid(declaration: &Declaration) -> (valid: bool)
    ensures
        valid == valid_declaration(declaration@),
{
    let services = &declaration.services;
    let mut i: usize = 0;
    while i < services.len()
        invariant
            i <= services.len(),
            *services == declaration.services,
            valid_declaration(declaration@.take(i as int)),
        decreases services.len() - i,
    {
        let ghost seen = declaration@.take(i as int);
        let ghost more = declaration@.take(i + 1);
        assert(more[i as int] == services@[i as int].deep_view());
        assert forall|k: int| 0 <= k < i implies more[k] == seen[k] by {}
        if !service_name_is_valid(services[i].name.as_str()) || services[i].port == 0 {
            assert(!valid_declaration(declaration@)) by {
                assert(declaration@[i as int] == more[i as int]);
            }
            return false;
        }
        let mut j: usize = 0;
        while j < i
            invariant
                j <= i < services.len(),
                *services == declaration.services,
                forall|k: int|
                    0 <= k < j ==> (#[trigger] declaration@[k]).name != services@[i as int].name@,
            decreases i - j,
        {
            if same_text(services[j].name.as_str(), services[i].name.as_str()) {
                assert(declaration@[j as int].name == declaration@[i as int].name);
                return false;
            }
            j = j + 1;
        }
        assert(valid_declaration(more)) by {
            assert forall|k: int, m: int| 0 <= k < m < more.len() implies (
            #[trigger] more[k]).name != (#[trigger] more[m]).name by {
                if m < i {
                    assert(seen[k].name != seen[m].name);
                } else {
                    assert(more[k] == declaration@[k]);
                }
            }
            assert forall|k: int| 0 <= k < more.len() implies service_name(
                (#[trigger] more[k]).name,
            ) && more[k].port != 0 by {
                if k < i {
                    assert(service_name(seen[k].name));
                }
            }
        }
        i = i + 1;
    }
    assert(declaration@.take(declaration@.len() as int) =~= declaration@);
    true
}

/// The index of the first service of a name.
pub open spec fn first_service(services: Seq<ServiceModel>, name: Seq<char>) -> Option<nat>
    decreases services.len(),
{
    if services.len() == 0 {
        None
    } else {
        match first_service(services.drop_last(), name) {
            Some(i) => Some(i),
            None => if services.last().name == name {
                Some((services.len() - 1) as nat)
            } else {
                None
            },
        }
    }
}

/// The port of the first service of a name.
pub open spec fn first_port(services: Seq<ServiceModel>, name: Seq<char>) -> Option<u16> {
    match first_service(services, name) {
        Some(i) => Some(services[i as int].port),
        None => None,
    }
}

/// What the first service of a name is.
pub proof fn lemma_first_service(services: Seq<ServiceModel>, name: Seq<char>)
    ensures
        match first_service(services, name) {
            Some(i) => i < services.len() && services[i as int].name == name && forall|j: int|
                0 <= j < i ==> (#[trigger] services[j]).name != name,
            None => forall|j: int| 0 <= j < services.len() ==> (#[trigger] services[j]).name != name,
        },
    decreases services.len(),
{
    if services.len() > 0 {
        let before = services.drop_last();
        lemma_first_service(before, name);
        match first_service(before, name) {
            Some(i) => {
                assert(services[i as int] == before[i as int]);
                assert forall|j: int| 0 <= j < i implies (#[trigger] services[j]).name != name by {
                    assert(before[j].name != name);
                }
            },
            None => {
                assert forall|j: int| 0 <= j < services.len() - 1 implies (
                #[trigger] services[j]).name != name by {
                    assert(before[j].name != name);
                }
            },
        }
    }
}

/// The port of the last service of a name.
pub open spec fn last_port(services: Seq<ServiceModel>, name: Seq<char>) -> Option<u16>
    decreases services.len(),
{
    if services.len() == 0 {
        None
    } else if services.last().name == name {
        Some(services.last().port)
    } else {
        last_port(services.drop_last(), name)
    }
}

/// What the last port of a name is.
pub proof fn lemma_last_port(services: Seq<ServiceModel>, name: Seq<char>)
    ensures
        last_port(services, name) is Some <==> exists|i: int|
            0 <= i < services.len() && (#[trigger] services[i]).name == name,
        last_port(services, name) matches Some(port) ==> exists|i: int|
            0 <= i < services.len() && (#[trigger] services[i]).name == name && services[i].port == port,
    decreases services.len(),
{
    if services.len() > 0 {
        let before = services.drop_last();
        lemma_last_port(before, name);
        if services.last().name == name {
            assert(services[services.len() - 1].name == name);
        } else {
            if last_port(before, name) is Some {
                let i = choose|i: int|
                    0 <= i < before.len() && (#[trigger] before[i]).name == name && before[i].port
                        == last_port(before, name)->0;
                assert(services[i] == before[i]);
            }
            if exists|i: int| 0 <= i < services.len() && (#[trigger] services[i]).name == name {
                let i = choose|i: int|
                    0 <= i < services.len() && (#[trigger] services[i]).name == name;
                assert(before[i] == services[i]);
            }
        }
    }
}

/// In a valid declaration a name has one port, wherever it is looked up from.
pub proof fn declared_port_is_unique(services: Seq<ServiceModel>, name: Seq<char>)
    requires
        valid_declaration(services),
    ensures
        first_port(services, name) == last_port(services, name),
{
    lemma_first_service(services, name);
    lemma_last_port(services, name);
    if let Some(i) = first_service(services, name) {
        assert(services[i as int].name == name);
        let k = choose|k: int|
            0 <= k < services.len() && (#[trigger] services[k]).name == name && services[k].port
                == last_port(services, name)->0;
        if i < k {
            assert(services[i as int].name != services[k].name);
        }
    }
}

/// Finds the first service of a name.
pub fn find_service(declaration: &Declaration, name: &str) -> (found: Option<usize>)
    ensures
        match found {
            Some(i) => first_service(declaration@, name@) == Some(i as nat) && i
                < declaration.services.len(),
            None => first_service(declaration@, name@) is None,
        },
{
    let services = &declaration.services;
    let mut i: usize = 0;
    while i < services.len()
        invariant
            i <= services.len(),
            *services == declaration.services,
            first_service(declaration@.take(i as int), name@) is None,
        decreases services.len() - i,
    {
        assert(declaration@.take(i + 1).drop_last() =~= declaration@.take(i as int));
        assert(declaration@.take(i + 1).last() == services@[i as int].deep_view());
        if same_text(services[i].name.as_str(), name) {
            proof {
                lemma_first_stays(declaration@, i + 1, name@);
            }
            return Some(i);
        }
        i = i + 1;
    }
    assert(declaration@.take(declaration@.len() as int) =~= declaration@);
    None
}

proof fn lemma_first_stays(services: Seq<ServiceModel>, n: int, name: Seq<char>)
    requires
        0 <= n <= services.len(),
        first_service(services.take(n), name) is Some,
    ensures
        first_service(services, name) == first_service(services.take(n), name),
    decreases services.len() - n,
{
    if n < services.len() {
        assert(services.take(n + 1).drop_last() =~= services.take(n));
        lemma_first_stays(services, n + 1, name);
    } else {
        assert(services.take(n) =~= services);
    }
}

/// Finds the port of the last service of a name.
pub fn declared_port(declaration: &Declaration, name: &str) -> (port: Option<u16>)
    ensures
        port == last_port(declaration@, name@),
{
    let services = &declaration.services;
    let mut port: Option<u16> = None;
    let mut i: usize = 0;
    while i < services.len()
        invariant
            i <= services.len(),
            *services == declaration.services,
            port == last_port(declaration@.take(i as int), name@),
        decreases services.len() - i,
    {
        assert(declaration@.take(i + 1).drop_last() =~= declaration@.take(i as int));
        assert(declaration@.take(i + 1).last() == services@[i as int].deep_view());
        if same_text(services[i].name.as_str(), name) {
            port = Some(services[i].port);
        }
        i = i + 1;
    }
    assert(declaration@.take(declaration@.len() as int) =~= declaration@);
    port
}

/// The service that a record describes.
pub open spec fn service_in(tree: TomlTree) -> Option<ServiceModel> {
    match record(tree, seq!["name"@, "port"@]) {
        Some(values) => match (text_value(values[0]), port_value(values[1])) {
            (Some(name), Some(port)) => Some(ServiceModel { name, port }),
            _ => None,
        },
        None => None,
    }
}

/// The services that a document declares.
pub open spec fn services_in(tree: TomlTree) -> Option<Seq<ServiceModel>> {
    match list(tree, "services"@) {
        Some(items) => if forall|i: int|
            0 <= i < items.len() ==> service_in(#[trigger] items[i]) is Some {
            Some(items.map_values(|item: TomlTree| service_in(item)->0))
        } else {
            None
        },
        None => None,
    }
}

fn read_service(value: &TomlValue) -> (service: Option<Service>)
    ensures
        service.deep_view() == service_in(value.tree()),
{
    let names: [&str; 2] = ["name", "port"];
    let names: &[&str] = names.as_slice();
    assert(names.deep_view() =~= seq!["name"@, "port"@]);
    match read_record(value, names) {
        Some(values) => {
            assert(trees(values@)[0] == values@[0].tree());
            assert(trees(values@)[1] == values@[1].tree());
            match (read_text(values[0]), read_port(values[1])) {
                (Some(name), Some(port)) => Some(Service { name, port }),
                _ => None,
            }
        },
        None => None,
    }
}

/// Reads the services that a document declares.
pub fn decode_declaration(document: &TomlValue) -> (declaration: Option<Declaration>)
    ensures
        match declaration {
            Some(declaration) => services_in(document.tree()) == Some(declaration@),
            None => services_in(document.tree()) is None,
        },
{
    match read_list(document, "services") {
        Some(items) => {
            let ghost all = trees(items@);
            let mut services: Vec<Service> = Vec::new();
            let mut i: usize = 0;
            while i < items.len()
                invariant
                    i <= items.len(),
                    all == trees(items@),
                    list(document.tree(), "services"@) == Some(all),
                    services.len() == i,
                    forall|j: int|
                        0 <= j < i ==> service_in(#[trigger] all[j]) == Some(
                            services@[j].deep_view(),
                        ),
                decreases items.len() - i,
            {
                assert(all[i as int] == items@[i as int].tree());
                match read_service(items[i]) {
                    Some(service) => services.push(service),
                    None => {
                        assert(service_in(all[i as int]) is None);
                        return None;
                    },
                }
                i = i + 1;
            }
            let declaration = Declaration { services };
            assert(declaration@ =~= all.map_values(|item: TomlTree| service_in(item)->0));
            Some(declaration)
        },
        None => None,
    }
}

/// The declaration in a document, or why there is none.
pub open spec fn declaration_in(document: Result<TomlTree, SourceError>) -> Result<
    Seq<ServiceModel>,
    Failure,
> {
    match document {
        Err(SourceError::NotUtf8) => Err(Failure::DeclarationNotUtf8),
        Err(SourceError::NotToml) => Err(Failure::InvalidDeclaration),
        Ok(tree) => match services_in(tree) {
            Some(services) => if valid_declaration(services) {
                Ok(services)
            } else {
                Err(Failure::InvalidDeclaration)
            },
            None => Err(Failure::InvalidDeclaration),
        },
    }
}

/// The declaration in the bytes of a file, if the file could be read.
pub open spec fn loaded_declaration(contents: Option<Seq<u8>>) -> Result<
    Seq<ServiceModel>,
    Failure,
> {
    match contents {
        None => Err(Failure::DeclarationUnreadable),
        Some(bytes) => declaration_in(document_in(bytes)),
    }
}

/// The mathematical model of a result.
pub open spec fn declaration_result(result: Result<Declaration, Failure>) -> Result<
    Seq<ServiceModel>,
    Failure,
> {
    match result {
        Ok(declaration) => Ok(declaration@),
        Err(failure) => Err(failure),
    }
}

/// Checks the document that a declaration file holds.
pub fn check_declaration(document: Result<TomlValue, SourceError>) -> (result: Result<
    Declaration,
    Failure,
>)
    ensures
        declaration_result(result) == declaration_in(document_tree(document)),
{
    match document {
        Err(SourceError::NotUtf8) => Err(Failure::DeclarationNotUtf8),
        Err(SourceError::NotToml) => Err(Failure::InvalidDeclaration),
        Ok(value) => match decode_declaration(&value) {
            Some(declaration) => if declaration_is_valid(&declaration) {
                Ok(declaration)
            } else {
                Err(Failure::InvalidDeclaration)
            },
            None => Err(Failure::InvalidDeclaration),
        },
    }
}

/// Reads a declaration from the contents of its file, `None` when the file could
/// not be read.
pub fn load_declaration(contents: &Option<Vec<u8>>) -> (result: Result<Declaration, Failure>)
    ensures
        declaration_result(result) == loaded_declaration(bytes_of(*contents)),
{
    match contents {
        None => Err(Failure::DeclarationUnreadable),
        Some(bytes) => check_declaration(read_bytes(bytes)),
    }
}

/// A declaration is valid exactly when every service has a name that can name a service and
/// a port other than zero, and no two of them, at different places, have the same name. They
/// may have the same port.
pub proof fn declarations_have_unique_names(services: Seq<ServiceModel>)
    ensures
        valid_declaration(services) <==> {
            &&& forall|i: int|
                0 <= i < services.len() ==> service_name((#[trigger] services[i]).name)
            &&& forall|i: int| 0 <= i < services.len() ==> (#[trigger] services[i]).port > 0
            &&& forall|i: int, j: int|
                0 <= i < services.len() && 0 <= j < services.len() && (#[trigger] services[i]).name
                    == (#[trigger] services[j]).name ==> i == j
        },
{
    if valid_declaration(services) {
        assert forall|i: int, j: int|
            0 <= i < services.len() && 0 <= j < services.len() && (#[trigger] services[i]).name == (
            #[trigger] services[j]).name implies i == j by {
            if i < j {
                assert(services[i].name != services[j].name);
            } else if j < i {
                assert(services[j].name != services[i].name);
            }
        }
    }
}

/// In a valid declaration looking up the name of a service gives the port of that service,
/// and looking up any other name gives nothing.
pub proof fn names_find_their_ports(services: Seq<ServiceModel>, name: Seq<char>, i: int)
    requires
        valid_declaration(services),
    ensures
        0 <= i < services.len() ==> first_port(services, services[i].name) == Some(
            services[i].port,
        ) && last_port(services, services[i].name) == Some(services[i].port),
        (forall|k: int| 0 <= k < services.len() ==> (#[trigger] services[k]).name != name)
            ==> first_port(services, name) is None && last_port(services, name) is None,
{
    lemma_first_service(services, name);
    lemma_last_port(services, name);
    if 0 <= i < services.len() {
        let own = services[i].name;
        lemma_first_service(services, own);
        lemma_last_port(services, own);
        declared_port_is_unique(services, own);
        declarations_have_unique_names(services);
    }
}

/// A service is read from the two fields of its record, `name` and `port`, in a table in
/// either order, and in an array in this order.
pub proof fn services_are_read_from_their_fields(name: Seq<char>, number: TomlTree, port: u16)
    requires
        port_value(number) == Some(port),
    ensures
        service_in(
            TomlTree::Table(seq![("name"@, TomlTree::Text(name)), ("port"@, number)]),
        ) == Some(ServiceModel { name, port }),
        service_in(
            TomlTree::Table(seq![("port"@, number), ("name"@, TomlTree::Text(name))]),
        ) == Some(ServiceModel { name, port }),
        service_in(TomlTree::Array(seq![TomlTree::Text(name), number])) == Some(
            ServiceModel { name, port },
        ),
{
    reveal_strlit("name");
    reveal_strlit("port");
    assert("name"@[0] == 'n' && "port"@[0] == 'p');
    two_fields_stand_in_any_order("name"@, "port"@, TomlTree::Text(name), number);
}

/// The services of a document are those of its list `services`, one for one and in their
/// order. One item that is no service makes the document unreadable, and so does any field
/// of another name.
pub proof fn documents_list_their_services(items: Seq<TomlTree>, other: Seq<char>, value: TomlTree)
    ensures
        services_in(TomlTree::Table(Seq::empty())) == Some(Seq::<ServiceModel>::empty()),
        match services_in(TomlTree::Table(seq![("services"@, TomlTree::Array(items))])) {
            Some(services) => services.len() == items.len() && forall|i: int|
                0 <= i < items.len() ==> service_in(#[trigger] items[i]) == Some(services[i]),
            None => exists|i: int| 0 <= i < items.len() && service_in(#[trigger] items[i]) is None,
        },
        other != "services"@ ==> services_in(TomlTree::Table(seq![(other, value)])) is None,
{
    documents_hold_one_list("services"@, TomlTree::Array(items), other, value);
    documents_hold_one_list("services"@, value, other, value);
    let nothing = Seq::<TomlTree>::empty();
    assert(nothing.map_values(|item: TomlTree| service_in(item)->0)
        =~= Seq::<ServiceModel>::empty());
}

/// Each way in which a declaration file can be wrong is reported as what it is, and a file
/// is accepted exactly when what it lists is valid.
pub proof fn declaration_files_are_judged(contents: Option<Seq<u8>>)
    ensures
        contents is None ==> loaded_declaration(contents) == Err::<Seq<ServiceModel>, Failure>(
            Failure::DeclarationUnreadable,
        ),
        contents matches Some(bytes) ==> loaded_declaration(contents) == match document_in(bytes) {
            Err(SourceError::NotUtf8) => Err(Failure::DeclarationNotUtf8),
            Err(SourceError::NotToml) => Err(Failure::InvalidDeclaration),
            Ok(tree) => if services_in(tree) is Some && valid_declaration(services_in(tree)->0) {
                Ok(services_in(tree)->0)
            } else {
                Err(Failure::InvalidDeclaration)
            },
        },
{
}

/// The model of a declaration is its services, one for one and in order, each with its own
/// name and port, and the model of a result is that of what it holds.
pub proof fn declarations_are_shown_as_they_are(declaration: Declaration, i: int, failure: Failure)
    ensures
        declaration@.len() == declaration.services@.len(),
        0 <= i < declaration@.len() ==> declaration@[i].name == declaration.services@[i].name@
            && declaration@[i].port == declaration.services@[i].port,
        declaration_result(Ok(declaration)) == Ok::<Seq<ServiceModel>, Failure>(declaration@),
        declaration_result(Err(failure)) == Err::<Seq<ServiceModel>, Failure>(failure),
{
}

/// A service has exactly the fields `name` and `port`: whatever is read as one holds each of
/// them, with a text and with a port, and nothing else. An array is read by position.
pub proof fn services_have_two_fields(
    entries: Seq<(Seq<char>, TomlTree)>,
    items: Seq<TomlTree>,
    tree: TomlTree,
    service: ServiceModel,
)
    requires
        forall|j: int, m: int|
            0 <= j < m < entries.len() ==> (#[trigger] entries[j]).0 != (#[trigger] entries[m]).0,
    ensures
        service_in(TomlTree::Table(entries)) == Some(service) ==> {
            &&& has_field(entries, "name"@) && has_field(entries, "port"@)
            &&& forall|i: int|
                0 <= i < entries.len() ==> {
                    ||| #[trigger] entries[i] == ("name"@, TomlTree::Text(service.name))
                    ||| entries[i].0 == "port"@ && port_value(entries[i].1) == Some(service.port)
                }
        },
        service_in(TomlTree::Array(items)) == Some(service) <==> {
            &&& items.len() >= 2
            &&& items[0] == TomlTree::Text(service.name)
            &&& port_value(items[1]) == Some(service.port)
        },
        !(tree is Table) && !(tree is Array) ==> service_in(tree) is None,
{
    let names = seq!["name"@, "port"@];
    assert(names.len() == 2 && names[0] == "name"@ && names[1] == "port"@);
    if service_in(TomlTree::Table(entries)) == Some(service) {
        let values = record(TomlTree::Table(entries), names)->0;
        records_have_exactly_their_fields(entries, names);
        assert(has_field(entries, names[0]) && has_field(entries, names[1]));
        assert forall|i: int| 0 <= i < entries.len() implies ({
            ||| #[trigger] entries[i] == ("name"@, TomlTree::Text(service.name))
            ||| entries[i].0 == "port"@ && port_value(entries[i].1) == Some(service.port)
        }) by {
            assert(names.contains(entries[i].0));
            let k = choose|k: int| 0 <= k < names.len() && names[k] == entries[i].0;
            values_are_read_by_name(entries, names, values, i, k);
            assert(k == 0 || k == 1);
        }
    }
    if items.len() >= 2 {
        assert(record(TomlTree::Array(items), names) == Some(items.take(2)));
        assert(items.take(2)[0] == items[0] && items.take(2)[1] == items[1]);
    }
}

/// A document that declares services is a table, and holds nothing but the list `services`.
pub proof fn declarations_hold_nothing_else(
    entries: Seq<(Seq<char>, TomlTree)>,
    tree: TomlTree,
    i: int,
)
    ensures
        services_in(TomlTree::Table(entries)) is Some && 0 <= i < entries.len() ==> entries[i].0
            == "services"@,
        !(tree is Table) ==> services_in(tree) is None,
{
    if 0 <= i < entries.len() && entries[i].0 != "services"@ {
        let names = seq!["services"@];
        assert(!names.contains(entries[i].0)) by {
            if names.contains(entries[i].0) {
                let k = choose|k: int| 0 <= k < names.len() && names[k] == entries[i].0;
                assert(names[k] == "services"@);
            }
        }
        unknown_fields_are_rejected(entries, names, i);
    }
}

} // verus!
