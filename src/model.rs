//! The deployment model and the checks that a document must pass before it
//! is rendered.
use vstd::prelude::*;

verus! {

/// A deployment: a format version, services, shared volumes and networks.
///
/// `environments` and `extensions` are carried by the model but are not part
/// of the rendered document.
#[derive(Clone, Debug)]
pub struct Compose {
    pub version: Option<String>,
    pub services: Vec<Service>,
    pub volumes: Vec<Volume>,
    pub networks: Vec<Network>,
    pub environments: Vec<Environment>,
    pub extensions: Vec<Extension>,
}

/// One container. `container_name` is the service's name as well.
#[derive(Clone, Debug)]
pub struct Service {
    pub image: String,
    pub container_name: String,
    pub ports: Vec<Port>,
    pub volumes: Vec<Volume>,
    pub networks: Vec<Network>,
    pub depends_on: Vec<Dependency>,
    pub restart: Policy,
    pub environments: Vec<Environment>,
    pub command: Command,
    pub labels: Vec<Label>,
}

/// A port published as `host:container`.
#[derive(Clone, Debug)]
pub struct Port {
    pub host: String,
    pub container: String,
}

/// The name of a service that this one starts after.
#[derive(Clone, Debug)]
pub struct Dependency {
    pub service: String,
}

/// A restart condition; empty means none is given.
#[derive(Clone, Debug)]
pub struct Policy {
    pub condition: String,
}

/// A command line; empty means none is given.
#[derive(Clone, Debug)]
pub struct Command {
    pub value: String,
}

#[derive(Clone, Debug)]
pub struct Label {
    pub key: String,
    pub value: String,
}

/// At the top level a named volume (`title`) with its driver; inside a
/// service a mount from `title` to the container path `driver`.
#[derive(Clone, Debug)]
pub struct Volume {
    pub title: String,
    pub driver: String,
}

/// A network named `driver`. Inside a service only the name is used.
#[derive(Clone, Debug)]
pub struct Network {
    pub driver: String,
    pub external: bool,
}

#[derive(Clone, Debug)]
pub struct Environment {
    pub title: String,
    pub value: String,
}

#[derive(Clone, Debug)]
pub struct Extension {
    pub title: String,
    pub value: String,
}

/// Why a document cannot be rendered.
#[derive(Clone, Copy, Debug, PartialEq, Eq, Structural)]
pub enum ComposeError {
    /// The version, a service's name or image, or a volume's or network's
    /// name is absent or empty.
    MissingRequiredField,
    /// Two services, two volumes or two networks share a name.
    DuplicateName,
}

/// An entry of a collection whose names must be unique.
pub trait Named {
    spec fn name_view(&self) -> Seq<char>;

    fn name(&self) -> (r: &String)
        ensures
            r@ == self.name_view(),
    ;
}

impl Named for Service {
    open spec fn name_view(&self) -> Seq<char> {
        self.container_name@
    }

    fn name(&self) -> (r: &String) {
        &self.container_name
    }
}

impl Named for Volume {
    open spec fn name_view(&self) -> Seq<char> {
        self.title@
    }

    fn name(&self) -> (r: &String) {
        &self.title
    }
}

impl Named for Network {
    open spec fn name_view(&self) -> Seq<char> {
        self.driver@
    }

    fn name(&self) -> (r: &String) {
        &self.driver
    }
}

pub open spec fn has_duplicate<T: Named>(items: Seq<T>) -> bool {
    exists|i: int, j: int|
        0 <= i < j < items.len() && #[trigger] items[i].name_view() == #[trigger] items[j].name_view()
}

pub open spec fn has_blank_name<T: Named>(items: Seq<T>) -> bool {
    exists|i: int| 0 <= i < items.len() && (#[trigger] items[i].name_view()).len() == 0
}

pub open spec fn has_blank_image(services: Seq<Service>) -> bool {
    exists|i: int| 0 <= i < services.len() && (#[trigger] services[i].image@).len() == 0
}

pub open spec fn has_duplicate_names(c: Compose) -> bool {
    ||| has_duplicate(c.services@)
    ||| has_duplicate(c.volumes@)
    ||| has_duplicate(c.networks@)
}

pub open spec fn lacks_required_field(c: Compose) -> bool {
    ||| c.version is None
    ||| c.version->0@.len() == 0
    ||| has_blank_name(c.services@)
    ||| has_blank_image(c.services@)
    ||| has_blank_name(c.volumes@)
    ||| has_blank_name(c.networks@)
}

/// The outcome of checking a document: duplicate names are reported first,
/// then missing fields.
pub open spec fn check_result(c: Compose) -> Result<(), ComposeError> {
    if has_duplicate_names(c) {
        Err(ComposeError::DuplicateName)
    } else if lacks_required_field(c) {
        Err(ComposeError::MissingRequiredField)
    } else {
        Ok(())
    }
}

pub open spec fn is_valid(c: Compose) -> bool {
    check_result(c) is Ok
}

fn find_duplicate<T: Named>(items: &Vec<T>) -> (r: bool)
    ensures
        r == has_duplicate(items@),
{
    let n = items.len();
    let mut i: usize = 0;
    while i < n
        invariant
            n == items@.len(),
            i <= n,
            forall|a: int, b: int|
                0 <= a < i && a < b < n ==> #[trigger] items@[a].name_view()
                    != #[trigger] items@[b].name_view(),
        decreases n - i,
    {
        let mut j: usize = i + 1;
        while j < n
            invariant
                n == items@.len(),
                i < n,
                i < j <= n,
                forall|b: int| i < b < j ==> items@[i as int].name_view() != #[trigger] items@[b].name_view(),
            decreases n - j,
        {
            if items[i].name().eq(items[j].name()) {
                return true;
            }
            j += 1;
        }
        i += 1;
    }
    false
}

fn find_blank_name<T: Named>(items: &Vec<T>) -> (r: bool)
    ensures
        r == has_blank_name(items@),
{
    let n = items.len();
    let mut i: usize = 0;
    while i < n
        invariant
            n == items@.len(),
            i <= n,
            forall|a: int| 0 <= a < i ==> (#[trigger] items@[a].name_view()).len() != 0,
        decreases n - i,
    {
        if items[i].name().as_str().is_empty() {
            return true;
        }
        i += 1;
    }
    false
}

fn find_blank_image(services: &Vec<Service>) -> (r: bool)
    ensures
        r == has_blank_image(services@),
{
    let n = services.len();
    let mut i: usize = 0;
    while i < n
        invariant
            n == services@.len(),
            i <= n,
            forall|a: int| 0 <= a < i ==> (#[trigger] services@[a].image@).len() != 0,
        decreases n - i,
    {
        if services[i].image.as_str().is_empty() {
            return true;
        }
        i += 1;
    }
    false
}

impl Compose {
    /// Checks that the document can be rendered: names unique within
    /// services, volumes and networks, and every required field present.
    pub fn validate(&self) -> (r: Result<(), ComposeError>)
        ensures
            r == check_result(*self),
    {
        if find_duplicate(&self.services) || find_duplicate(&self.volumes) || find_duplicate(
            &self.networks,
        ) {
            return Err(ComposeError::DuplicateName);
        }
        let missing_version = match &self.version {
            None => true,
            Some(v) => v.as_str().is_empty(),
        };
        if missing_version || find_blank_name(&self.services) || find_blank_image(&self.services)
            || find_blank_name(&self.volumes) || find_blank_name(&self.networks) {
            return Err(ComposeError::MissingRequiredField);
        }
        Ok(())
    }

    /// Builds a document from its parts, refusing one that fails `validate`.
    pub fn new(
        version: Option<String>,
        services: Vec<Service>,
        volumes: Vec<Volume>,
        networks: Vec<Network>,
        environments: Vec<Environment>,
        extensions: Vec<Extension>,
    ) -> (r: Result<Compose, ComposeError>)
        ensures
            ({
                let c = Compose { version, services, volumes, networks, environments, extensions };
                &&& r is Ok <==> is_valid(c)
                &&& r is Ok ==> r->Ok_0 == c
                &&& r is Err ==> check_result(c) == Err::<(), ComposeError>(r->Err_0)
            }),
    {
        let c = Compose { version, services, volumes, networks, environments, extensions };
        match c.validate() {
            Ok(()) => Ok(c),
            Err(e) => Err(e),
        }
    }
}

} // verus!
