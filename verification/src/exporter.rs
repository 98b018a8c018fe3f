//! The settings of the HTTP exporter, and what it decides for each request.
//!
//! Listening, serving and polling are the caller's part. What is settled here is
//! the path under which the metrics are served, the answer to a request by its
//! path, and the names of the metrics under a global prefix.

use vstd::prelude::*;
use vstd::string::*;
use core::time::Duration;

verus! {

/// `prometheus::Registry`, the registry of the metrics backend. The settings
/// carry it to the one who installs the exporter and never look into it.
#[verifier::external_type_specification]
#[verifier::external_body]
pub struct ExRegistry(prometheus::Registry);

/// The address that the exporter listens on unless another is set.
pub const DEFAULT_ADDRESS: &'static str = "0.0.0.0:9090";

/// The path under which the metrics are served unless another is set.
pub const DEFAULT_PATH: &'static str = "/metrics";

/// The status of an answer that carries the metrics.
pub const STATUS_OK: u16 = 200;

/// The status of the answer to a request for another path.
pub const STATUS_NOT_FOUND: u16 = 404;

/// An error in the settings of the exporter.
#[derive(Clone, Debug, PartialEq, Eq)]
pub enum ExporterError {
    /// The path is empty or does not start with a slash.
    InvalidPath(String),
}

/// The text without the slashes at its end.
pub open spec fn without_trailing_slashes(text: Seq<char>) -> Seq<char>
    decreases text.len(),
{
    if text.len() > 0 && text.last() == '/' {
        without_trailing_slashes(text.drop_last())
    } else {
        text
    }
}

/// The path under which the metrics are served, for a configured path that
/// starts with a slash: the root stays the root, every other path loses the
/// slashes at its end.
pub open spec fn served_path(path: Seq<char>) -> Seq<char> {
    if path == seq!['/'] {
        path
    } else {
        without_trailing_slashes(path)
    }
}

/// Whether a configured path is accepted: it starts with a slash.
pub open spec fn valid_path(path: Seq<char>) -> bool {
    path.len() > 0 && path[0] == '/'
}

/// What is left of a text without its trailing slashes does not end with a
/// slash, is the beginning of the text, and nothing but slashes was cut.
pub proof fn lemma_without_trailing_slashes(text: Seq<char>)
    ensures
        without_trailing_slashes(text).len() <= text.len(),
        without_trailing_slashes(text) == text.take(without_trailing_slashes(text).len() as int),
        without_trailing_slashes(text).len() > 0 ==> without_trailing_slashes(text).last() != '/',
        forall|i: int| without_trailing_slashes(text).len() <= i < text.len() ==> text[i] == '/',
    decreases text.len(),
{
    if text.len() > 0 && text.last() == '/' {
        let front = text.drop_last();
        lemma_without_trailing_slashes(front);
        let cut = without_trailing_slashes(front);
        assert(cut == text.take(cut.len() as int)) by {
            assert(front.take(cut.len() as int) == text.take(cut.len() as int));
        }
        assert forall|i: int| cut.len() <= i < text.len() implies text[i] == '/' by {
            if i < front.len() {
                assert(front[i] == text[i]);
            }
        }
    } else {
        assert(text.take(text.len() as int) == text);
    }
}

/// The text of `text` up to the slashes at its end.
fn trim_trailing_slashes(text: &str) -> (trimmed: String)
    ensures
        trimmed@ == without_trailing_slashes(text@),
{
    let mut end: usize = text.unicode_len();
    proof {
        assert(text@.take(end as int) == text@);
    }
    while end > 0 && text.get_char(end - 1) == '/'
        invariant
            end <= text@.len(),
            without_trailing_slashes(text@) == without_trailing_slashes(text@.take(end as int)),
        decreases end,
    {
        proof {
            let head = text@.take(end as int);
            assert(head.last() == text@[end - 1]);
            assert(head.drop_last() == text@.take(end - 1));
        }
        end -= 1;
    }
    proof {
        let head = text@.take(end as int);
        if end > 0 {
            assert(head.last() == text@[end - 1]);
        }
        assert(text@.subrange(0, end as int) == head);
    }
    text.substring_char(0, end).to_owned()
}

/// The settings of the exporter.
pub struct ExporterBuilder {
    registry: Option<prometheus::Registry>,
    address: String,
    path: String,
    global_prefix: Option<String>,
    process_metrics_poll_interval: Option<Duration>,
}

/// The settings of the exporter, taken apart for the one who installs it.
pub struct ExporterParts {
    /// The registry to serve, if one was set.
    pub registry: Option<prometheus::Registry>,
    /// The address to listen on, as it was set.
    pub address: String,
    /// The path under which the metrics are served.
    pub path: String,
    /// The prefix of every metric name, if one was set.
    pub global_prefix: Option<String>,
    /// The interval at which the process metrics are collected, if they are.
    pub process_metrics_poll_interval: Option<Duration>,
}

impl Default for ExporterBuilder {
    fn default() -> (builder: Self)
        ensures
            builder.registry_spec() is None,
            builder.address_spec() == DEFAULT_ADDRESS@,
            builder.path_spec() == DEFAULT_PATH@,
            builder.global_prefix_spec() is None,
            builder.poll_interval_spec() is None,
    {
        Self {
            registry: None,
            address: DEFAULT_ADDRESS.to_owned(),
            path: DEFAULT_PATH.to_owned(),
            global_prefix: None,
            process_metrics_poll_interval: None,
        }
    }
}

impl ExporterBuilder {
    /// The registry that was set.
    pub closed spec fn registry_spec(&self) -> Option<prometheus::Registry> {
        self.registry
    }

    /// The address that was set.
    pub closed spec fn address_spec(&self) -> Seq<char> {
        self.address@
    }

    /// The path that was set.
    pub closed spec fn path_spec(&self) -> Seq<char> {
        self.path@
    }

    /// The prefix that was set.
    pub closed spec fn global_prefix_spec(&self) -> Option<String> {
        self.global_prefix
    }

    /// The interval that was set.
    pub closed spec fn poll_interval_spec(&self) -> Option<Duration> {
        self.process_metrics_poll_interval
    }

    /// Whether `self` differs from `before` in nothing but, possibly, what `changed` lists.
    pub open spec fn same_but(&self, before: &Self, changed: Setting) -> bool {
        &&& changed == Setting::Registry || self.registry_spec() == before.registry_spec()
        &&& changed == Setting::Address || self.address_spec() == before.address_spec()
        &&& changed == Setting::Path || self.path_spec() == before.path_spec()
        &&& changed == Setting::Namespace || self.global_prefix_spec()
            == before.global_prefix_spec()
        &&& changed == Setting::ProcessMetrics || self.poll_interval_spec()
            == before.poll_interval_spec()
    }

    /// Settings with the default address and path, and nothing else set.
    pub fn new() -> (builder: Self)
        ensures
            builder.registry_spec() is None,
            builder.address_spec() == DEFAULT_ADDRESS@,
            builder.path_spec() == DEFAULT_PATH@,
            builder.global_prefix_spec() is None,
            builder.poll_interval_spec() is None,
    {
        Self::default()
    }

    /// Sets the socket address for the exporter.
    pub fn with_address(self, address: String) -> (builder: Self)
        ensures
            builder.address_spec() == address@,
            builder.same_but(&self, Setting::Address),
    {
        let mut builder = self;
        builder.address = address;
        builder
    }

    /// Sets the path for the exporter.
    pub fn with_path(self, path: String) -> (builder: Self)
        ensures
            builder.path_spec() == path@,
            builder.same_but(&self, Setting::Path),
    {
        let mut builder = self;
        builder.path = path;
        builder
    }

    /// Sets the global namespace, which is put in front of all metric names.
    pub fn with_namespace(self, global_prefix: String) -> (builder: Self)
        ensures
            builder.global_prefix_spec() == Some(global_prefix),
            builder.same_but(&self, Setting::Namespace),
    {
        let mut builder = self;
        builder.global_prefix = Some(global_prefix);
        builder
    }

    /// Sets the registry for the exporter.
    pub fn with_registry(self, registry: prometheus::Registry) -> (builder: Self)
        ensures
            builder.registry_spec() == Some(registry),
            builder.same_but(&self, Setting::Registry),
    {
        let mut builder = self;
        builder.registry = Some(registry);
        builder
    }

    /// Also collects process metrics, at the given interval.
    pub fn with_process_metrics(self, poll_interval: Duration) -> (builder: Self)
        ensures
            builder.poll_interval_spec() == Some(poll_interval),
            builder.same_but(&self, Setting::ProcessMetrics),
    {
        let mut builder = self;
        builder.process_metrics_poll_interval = Some(poll_interval);
        builder
    }

    /// The path under which the metrics are served.
    ///
    /// A path that is empty or does not start with a slash is an error. The
    /// root is served as it is, every other path without the slashes at its end.
    pub fn path(&self) -> (served: Result<String, ExporterError>)
        ensures
            match served {
                Ok(path) => valid_path(self.path_spec()) && path@ == served_path(self.path_spec()),
                Err(ExporterError::InvalidPath(path)) => !valid_path(self.path_spec()) && path@
                    == self.path_spec(),
            },
    {
        let path = self.path.as_str();
        if path.unicode_len() == 0 {
            return Err(ExporterError::InvalidPath(self.path.clone()));
        }
        if path.get_char(0) != '/' {
            return Err(ExporterError::InvalidPath(self.path.clone()));
        }
        if path.unicode_len() == 1 {
            proof {
                assert(self.path@ == seq!['/']);
            }
            return Ok(self.path.clone());
        }
        Ok(trim_trailing_slashes(path))
    }

    /// The settings, with the path under which the metrics are served, or the
    /// error of that path.
    pub fn into_parts(self) -> (parts: Result<ExporterParts, ExporterError>)
        ensures
            match parts {
                Ok(parts) => {
                    &&& valid_path(self.path_spec())
                    &&& parts.path@ == served_path(self.path_spec())
                    &&& parts.address@ == self.address_spec()
                    &&& parts.registry == self.registry_spec()
                    &&& parts.global_prefix == self.global_prefix_spec()
                    &&& parts.process_metrics_poll_interval == self.poll_interval_spec()
                },
                Err(ExporterError::InvalidPath(path)) => !valid_path(self.path_spec()) && path@
                    == self.path_spec(),
            },
    {
        match self.path() {
            Ok(path) => Ok(
                ExporterParts {
                    registry: self.registry,
                    address: self.address,
                    path,
                    global_prefix: self.global_prefix,
                    process_metrics_poll_interval: self.process_metrics_poll_interval,
                },
            ),
            Err(e) => Err(e),
        }
    }
}

/// One of the settings of the exporter.
#[derive(Clone, Copy, Debug, PartialEq, Eq, Structural)]
pub enum Setting {
    Registry,
    Address,
    Path,
    Namespace,
    ProcessMetrics,
}

impl ExporterError {
    /// A sentence that says what is wrong.
    pub fn describe(&self) -> (text: String)
        ensures
            match self {
                ExporterError::InvalidPath(path) => text@ == "Invalid path: "@ + path@,
            },
    {
        match self {
            ExporterError::InvalidPath(path) => {
                let mut text = "Invalid path: ".to_owned();
                text.append(path.as_str());
                text
            },
        }
    }
}

/// What the exporter answers to a request.
#[derive(Clone, Copy, Debug, PartialEq, Eq, Structural)]
pub enum Route {
    /// The metrics, for a request of the served path.
    Metrics,
    /// Nothing, for a request of any other path.
    NotFound,
}

impl Route {
    /// The answer to a request for `request_path` where the metrics are served
    /// under `served_path`.
    pub fn of(request_path: &str, served_path: &str) -> (route: Route)
        ensures
            route == if request_path@ == served_path@ {
                Route::Metrics
            } else {
                Route::NotFound
            },
    {
        if request_path.to_owned() == served_path.to_owned() {
            Route::Metrics
        } else {
            Route::NotFound
        }
    }

    /// The HTTP status of the answer.
    pub fn status(&self) -> (status: u16)
        ensures
            status == match self {
                Route::Metrics => STATUS_OK,
                Route::NotFound => STATUS_NOT_FOUND,
            },
    {
        match self {
            Route::Metrics => STATUS_OK,
            Route::NotFound => STATUS_NOT_FOUND,
        }
    }
}

/// The name of a metric under a global prefix: the prefix, an underscore, the name.
pub fn prefixed_name(prefix: &str, name: &str) -> (full: String)
    ensures
        full@ == prefix@ + seq!['_'] + name@,
{
    let mut full = prefix.to_owned();
    full.append("_");
    proof {
        reveal_strlit("_");
        assert("_"@ == seq!['_']);
    }
    full.append(name);
    full
}

} // verus!
