//! The registry of mocks, the builders that describe mocks before they are
//! registered, and the mock server's address and state.

use vstd::prelude::*;
use std::sync::Arc;
use crate::registry::Registry;
use crate::model::TestHarnessError;

verus! {

/// The message refusing a second mock of a name.
pub open spec fn already_registered_message(name: Seq<char>) -> Seq<char> {
    "Mock with name '"@ + name + "' is already registered"@
}

/// The message refusing to remove a mock that is not registered.
pub open spec fn not_registered_message(name: Seq<char>) -> Seq<char> {
    "Mock with name '"@ + name + "' is not registered"@
}

/// The message of a lookup of an unknown mock.
pub open spec fn not_found_message(name: Seq<char>) -> Seq<char> {
    "Mock with name '"@ + name + "' not found"@
}

/// Registered mocks by name.
pub struct MockManager<T> {
    mocks: Registry<T>,
}

impl<T> View for MockManager<T> {
    type V = Map<Seq<char>, T>;

    closed spec fn view(&self) -> Map<Seq<char>, T> {
        self.mocks@
    }
}

impl<T> MockManager<T> {
    /// A manager with no mocks.
    pub fn new() -> (m: MockManager<T>)
        ensures
            m@ == Map::<Seq<char>, T>::empty(),
    {
        MockManager { mocks: Registry::new() }
    }

    /// Registers a mock under a name no other mock has; a taken name is a
    /// mock error and leaves the manager unchanged.
    pub fn register_mock(&mut self, name: String, mock: T) -> (r: Result<(), TestHarnessError>)
        ensures
            old(self)@.contains_key(name@) ==> (r matches Err(TestHarnessError::MockError(m)) && m@
                == already_registered_message(name@) && final(self)@ == old(self)@),
            !old(self)@.contains_key(name@) ==> (r is Ok && final(self)@ == old(self)@.insert(name@, mock)),
    {
        if self.mocks.contains(name.as_str()) {
            let mut m = "Mock with name '".to_owned();
            m.append(name.as_str());
            m.append("' is already registered");
            Err(TestHarnessError::MockError(m))
        } else {
            self.mocks.insert_new(name, mock);
            Ok(())
        }
    }

    /// Removes the mock of a name; an unknown name is a mock error and
    /// leaves the manager unchanged.
    pub fn unregister_mock(&mut self, name: &str) -> (r: Result<(), TestHarnessError>)
        ensures
            !old(self)@.contains_key(name@) ==> (r matches Err(TestHarnessError::MockError(m)) && m@
                == not_registered_message(name@) && final(self)@ == old(self)@),
            old(self)@.contains_key(name@) ==> (r is Ok && final(self)@ == old(self)@.remove(name@)),
    {
        if self.mocks.contains(name) {
            self.mocks.remove(name);
            Ok(())
        } else {
            let mut m = "Mock with name '".to_owned();
            m.append(name);
            m.append("' is not registered");
            Err(TestHarnessError::MockError(m))
        }
    }

    /// The mock of a name; an unknown name is a mock error.
    pub fn get_mock(&self, name: &str) -> (r: Result<&T, TestHarnessError>)
        ensures
            self@.contains_key(name@) ==> (r matches Ok(m) && *m == self@[name@]),
            !self@.contains_key(name@) ==> (r matches Err(TestHarnessError::MockError(m)) && m@ == not_found_message(
                name@,
            )),
    {
        match self.mocks.get(name) {
            Some(m) => Ok(m),
            None => {
                let mut m = "Mock with name '".to_owned();
                m.append(name);
                m.append("' not found");
                Err(TestHarnessError::MockError(m))
            },
        }
    }

    /// Number of registered mocks.
    pub fn len(&self) -> (n: usize)
        ensures
            n == self@.dom().len(),
    {
        self.mocks.len()
    }
}

/// An HTTP mock: its name, description, and the server and port it is
/// reached at, when both are set.
#[derive(Debug)]
pub struct HttpMock {
    pub name: String,
    pub description: Option<String>,
    pub server: Option<String>,
    pub port: Option<u16>,
}

impl HttpMock {
    /// A mock of this name and description, not yet reached at a server.
    pub fn new(name: String, description: String) -> (m: HttpMock)
        ensures
            m.name == name,
            m.description == Some(description),
            m.server is None,
            m.port is None,
    {
        HttpMock { name, description: Some(description), server: None, port: None }
    }

    /// Sets the server and port.
    pub fn set_server(&mut self, server: String, port: u16)
        ensures
            final(self).name == old(self).name,
            final(self).description == old(self).description,
            final(self).server == Some(server),
            final(self).port == Some(port),
    {
        self.server = Some(server);
        self.port = Some(port);
    }

    /// The mock's URL, `http://`, the server, `:` and the port, when both
    /// are set.
    pub fn url(&self) -> (u: Option<String>)
        ensures
            match (self.server, self.port) {
                (Some(s), Some(p)) => u matches Some(x) && x@ == server_url(s@, p),
                _ => u is None,
            },
    {
        match (&self.server, self.port) {
            (Some(s), Some(p)) => {
                let mut u = "http://".to_owned();
                u.append(s.as_str());
                u.append(":");
                u.append(crate::chars::decimal_string(p as u64).as_str());
                Some(u)
            },
            _ => None,
        }
    }
}

/// Describes an HTTP mock before it is built and registered with its
/// manager.
pub struct HttpMockBuilder {
    pub name: String,
    pub description: Option<String>,
    pub server: Option<String>,
    pub port: Option<u16>,
    pub manager: MockManager<Arc<HttpMock>>,
}

impl HttpMockBuilder {
    /// A builder of a mock of the given name, to be registered with this
    /// manager, with no description or server.
    pub fn new(name: String, manager: MockManager<Arc<HttpMock>>) -> (b: HttpMockBuilder)
        ensures
            b.name@ == name@,
            b.description is None,
            b.server is None,
            b.port is None,
            b.manager@ == manager@,
    {
        HttpMockBuilder { name, description: None, server: None, port: None, manager }
    }

    /// Sets the description.
    pub fn with_description(self, description: String) -> (b: HttpMockBuilder)
        ensures
            b.name == self.name,
            b.description matches Some(d) && d@ == description@,
            b.server == self.server,
            b.port == self.port,
            b.manager@ == self.manager@,
    {
        HttpMockBuilder { description: Some(description), ..self }
    }

    /// Sets the server and port the mock is reached at.
    pub fn with_server(self, server: String, port: u16) -> (b: HttpMockBuilder)
        ensures
            b.name == self.name,
            b.description == self.description,
            b.server matches Some(s) && s@ == server@,
            b.port == Some(port),
            b.manager@ == self.manager@,
    {
        HttpMockBuilder { server: Some(server), port: Some(port), ..self }
    }

    /// Builds the mock (an empty description when none was set; reached at
    /// the server and port when both were set) and registers it with the
    /// manager under its name; gives back the mock and the manager. A name
    /// the manager already has is a mock error.
    pub fn build(self) -> (r: Result<(Arc<HttpMock>, MockManager<Arc<HttpMock>>), TestHarnessError>)
        ensures
            self.manager@.contains_key(self.name@) ==> (r matches Err(TestHarnessError::MockError(m)) && m@
                == already_registered_message(self.name@)),
            !self.manager@.contains_key(self.name@) ==> (r matches Ok((mock, manager)) && mock.name@ == self.name@
                && (mock.description matches Some(d) && d@ == match self.description {
                Some(x) => x@,
                None => Seq::<char>::empty(),
            }) && (match (self.server, self.port) {
                (Some(s), Some(p)) => mock.server == Some(s) && mock.port == Some(p),
                _ => mock.server is None && mock.port is None,
            }) && manager@ == self.manager@.insert(self.name@, mock)),
    {
        let description = match self.description {
            Some(d) => d,
            None => String::new(),
        };
        let mut mock = HttpMock::new(self.name.clone(), description);
        match (self.server, self.port) {
            (Some(s), Some(p)) => mock.set_server(s, p),
            _ => {},
        }
        let mock = Arc::new(mock);
        let mut manager = self.manager;
        match manager.register_mock(self.name, mock.clone()) {
            Ok(()) => Ok((mock, manager)),
            Err(e) => Err(e),
        }
    }
}

/// Law: the builder that `create_http_mock` gives has a manager of its own
/// with no mocks, so building it succeeds whatever other mocks of that
/// name were built.
pub proof fn lemma_created_http_mock_builds(b: HttpMockBuilder)
    requires
        b.manager@ == Map::<Seq<char>, Arc<HttpMock>>::empty(),
    ensures
        !b.manager@.contains_key(b.name@),
{
}

/// Describes a network, service or storage mock before it is built.
pub struct SimpleMockBuilder {
    pub name: String,
    pub description: Option<String>,
}

impl SimpleMockBuilder {
    /// A builder of a mock of the given name, with no description.
    pub fn new(name: String) -> (b: SimpleMockBuilder)
        ensures
            b.name@ == name@,
            b.description is None,
    {
        SimpleMockBuilder { name, description: None }
    }

    /// Sets the description.
    pub fn with_description(self, description: String) -> (b: SimpleMockBuilder)
        ensures
            b.name == self.name,
            b.description matches Some(d) && d@ == description@,
    {
        SimpleMockBuilder { name: self.name, description: Some(description) }
    }
}

/// A builder of a network mock.
pub type NetworkMockBuilder = SimpleMockBuilder;

/// A builder of a service mock.
pub type ServiceMockBuilder = SimpleMockBuilder;

/// A builder of a storage mock.
pub type StorageMockBuilder = SimpleMockBuilder;

/// A builder of an HTTP mock of the given name.
pub fn create_http_mock(name: String) -> (b: HttpMockBuilder)
    ensures
        b.name@ == name@,
        b.description is None,
        b.server is None,
        b.port is None,
        b.manager@ == Map::<Seq<char>, Arc<HttpMock>>::empty(),
{
    HttpMockBuilder::new(name, MockManager::new())
}

/// A builder of a network mock of the given name.
pub fn create_network_mock(name: String) -> (b: NetworkMockBuilder)
    ensures
        b.name@ == name@,
        b.description is None,
{
    SimpleMockBuilder::new(name)
}

/// A builder of a service mock of the given name.
pub fn create_service_mock(name: String) -> (b: ServiceMockBuilder)
    ensures
        b.name@ == name@,
        b.description is None,
{
    SimpleMockBuilder::new(name)
}

/// A builder of a storage mock of the given name.
pub fn create_storage_mock(name: String) -> (b: StorageMockBuilder)
    ensures
        b.name@ == name@,
        b.description is None,
{
    SimpleMockBuilder::new(name)
}

/// A manager with no mocks.
pub fn create_mock_manager<T>() -> (m: MockManager<T>)
    ensures
        m@ == Map::<Seq<char>, T>::empty(),
{
    MockManager::new()
}

/// Serves the mocks of a manager at an address and port.
pub struct MockServer<T> {
    address: String,
    port: u16,
    manager: Arc<MockManager<T>>,
    running: bool,
}

/// The URL of a server at `address` and `port`.
pub open spec fn server_url(address: Seq<char>, port: u16) -> Seq<char> {
    "http://"@ + address + ":"@ + crate::chars::decimal(port as nat)
}

impl<T> MockServer<T> {
    /// The server's address.
    pub closed spec fn address_view(&self) -> Seq<char> {
        self.address@
    }

    /// The server's port.
    pub closed spec fn port_view(&self) -> u16 {
        self.port
    }

    /// The server is running.
    pub closed spec fn is_running(&self) -> bool {
        self.running
    }

    /// The manager whose mocks the server answers with.
    pub closed spec fn manager_view(&self) -> Arc<MockManager<T>> {
        self.manager
    }

    /// A stopped server for the manager's mocks.
    pub fn new(address: String, port: u16, manager: Arc<MockManager<T>>) -> (s: MockServer<T>)
        ensures
            s.address_view() == address@,
            s.port_view() == port,
            s.manager_view() == manager,
            !s.is_running(),
    {
        MockServer { address, port, manager, running: false }
    }

    /// Starts the server; a running server is a mock error.
    pub fn start(&mut self) -> (r: Result<(), TestHarnessError>)
        ensures
            old(self).is_running() ==> (r matches Err(TestHarnessError::MockError(m)) && m@
                == "Mock server is already running"@ && final(self).is_running()),
            !old(self).is_running() ==> (r is Ok && final(self).is_running()),
            final(self).address_view() == old(self).address_view(),
            final(self).port_view() == old(self).port_view(),
    {
        if self.running {
            return Err(TestHarnessError::MockError("Mock server is already running".to_owned()));
        }
        self.running = true;
        Ok(())
    }

    /// Stops the server, whether it runs or not.
    pub fn stop(&mut self)
        ensures
            !final(self).is_running(),
            final(self).address_view() == old(self).address_view(),
            final(self).port_view() == old(self).port_view(),
    {
        self.running = false;
    }

    /// The server's address.
    pub fn address(&self) -> (a: &str)
        ensures
            a@ == self.address_view(),
    {
        self.address.as_str()
    }

    /// The server's port.
    pub fn port(&self) -> (p: u16)
        ensures
            p == self.port_view(),
    {
        self.port
    }

    /// The manager whose mocks the server answers with.
    pub fn manager(&self) -> (m: &Arc<MockManager<T>>)
        ensures
            *m == self.manager_view(),
    {
        &self.manager
    }

    /// The server's URL: `http://`, the address, `:` and the port.
    pub fn url(&self) -> (u: String)
        ensures
            u@ == server_url(self.address_view(), self.port_view()),
    {
        let mut u = "http://".to_owned();
        u.append(self.address.as_str());
        u.append(":");
        u.append(crate::chars::decimal_string(self.port as u64).as_str());
        u
    }
}

/// A mock server for the manager's mocks at an address and port.
pub fn create_mock_server<T>(address: String, port: u16, manager: Arc<MockManager<T>>) -> (s: MockServer<T>)
    ensures
        s.address_view() == address@,
        s.port_view() == port,
        !s.is_running(),
{
    MockServer::new(address, port, manager)
}

} // verus!
