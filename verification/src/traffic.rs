//! The traffic poller: what it asks for, and what it makes of the replies. Travel times are
//! fractional numbers and are compared by the program around this library.

use vstd::prelude::*;

use crate::duration::{Duration, NANOS_PER_SEC};
use crate::settings::{number_or, unsigned_or};
use crate::text::opt_text;

verus! {

/// The variables that set up the poller. One that is unset or is no text is absent.
#[derive(Debug)]
pub struct PollerVars {
    /// `TOMTOM_API_KEY`
    pub api_key: Option<String>,
    /// `ORIGIN`
    pub origin: Option<String>,
    /// `DESTINATION`
    pub destination: Option<String>,
    /// `POLL_INTERVAL_SECS`
    pub poll_interval_secs: Option<String>,
    /// `NTFY_TOPIC`
    pub ntfy_topic: Option<String>,
}

/// How the poller is set up.
#[derive(Debug)]
pub struct Config {
    pub api_key: String,
    /// Latitude and longitude, with a comma between them.
    pub origin: String,
    /// Latitude and longitude, with a comma between them.
    pub destination: String,
    pub poll_interval: Duration,
    /// Where alerts are pushed to, if anywhere.
    pub ntfy_topic: Option<String>,
}

/// The variable that is missing.
#[derive(Clone, Copy, Debug, PartialEq, Eq, Structural)]
pub enum ConfigError {
    ApiKey,
    Origin,
    Destination,
}

impl ConfigError {
    /// The error in words.
    pub open spec fn spec_message(self) -> Seq<char> {
        match self {
            ConfigError::ApiKey => "set TOMTOM_API_KEY (free, no card, at developer.tomtom.com)"@,
            ConfigError::Origin => "set ORIGIN as \"lat,lon\", e.g. -1.286389,36.817223"@,
            ConfigError::Destination => "set DESTINATION as \"lat,lon\""@,
        }
    }

    /// The error in words.
    pub fn message(&self) -> (text: &'static str)
        ensures
            text@ == self.spec_message(),
    {
        match self {
            ConfigError::ApiKey => "set TOMTOM_API_KEY (free, no card, at developer.tomtom.com)",
            ConfigError::Origin => "set ORIGIN as \"lat,lon\", e.g. -1.286389,36.817223",
            ConfigError::Destination => "set DESTINATION as \"lat,lon\"",
        }
    }
}

/// The first required variable that is missing.
pub open spec fn missing(vars: PollerVars) -> Option<ConfigError> {
    if vars.api_key is None {
        Some(ConfigError::ApiKey)
    } else if vars.origin is None {
        Some(ConfigError::Origin)
    } else if vars.destination is None {
        Some(ConfigError::Destination)
    } else {
        None
    }
}

/// A topic that names something: an empty one is as good as none.
pub open spec fn topic(text: Option<Seq<char>>) -> Option<Seq<char>> {
    match text {
        Some(t) => if t.len() > 0 {
            Some(t)
        } else {
            None
        },
        None => None,
    }
}

impl Config {
    /// Reads the configuration, or tells the first required variable that is missing.
    pub fn from_env(vars: PollerVars) -> (outcome: Result<Config, ConfigError>)
        ensures
            match outcome {
                Ok(cfg) => {
                    &&& missing(vars) is None
                    &&& Some(cfg.api_key@) == opt_text(vars.api_key)
                    &&& Some(cfg.origin@) == opt_text(vars.origin)
                    &&& Some(cfg.destination@) == opt_text(vars.destination)
                    &&& cfg.poll_interval@ == number_or(
                        opt_text(vars.poll_interval_secs),
                        u64::MAX as int,
                        300,
                    ) * NANOS_PER_SEC
                    &&& opt_text(cfg.ntfy_topic) == topic(opt_text(vars.ntfy_topic))
                },
                Err(e) => missing(vars) == Some(e),
            },
    {
        let secs: u64 = unsigned_or(&vars.poll_interval_secs, u64::MAX, 300);
        let api_key = match vars.api_key {
            Some(text) => text,
            None => return Err(ConfigError::ApiKey),
        };
        let origin = match vars.origin {
            Some(text) => text,
            None => return Err(ConfigError::Origin),
        };
        let destination = match vars.destination {
            Some(text) => text,
            None => return Err(ConfigError::Destination),
        };
        let ntfy_topic = match vars.ntfy_topic {
            Some(text) => if text.as_str().is_empty() {
                None
            } else {
                Some(text)
            },
            None => None,
        };
        Ok(
            Config {
                api_key,
                origin,
                destination,
                poll_interval: Duration::from_secs(secs),
                ntfy_topic,
            },
        )
    }

    /// The address of a route between two places.
    pub open spec fn spec_route_url(origin: Seq<char>, destination: Seq<char>) -> Seq<char> {
        "https://api.tomtom.com/routing/1/calculateRoute/"@ + origin + ":"@ + destination
            + "/json"@
    }

    /// The address that is asked for the route.
    pub fn route_url(&self) -> (url: String)
        ensures
            url@ == Config::spec_route_url(self.origin@, self.destination@),
    {
        let mut url = "https://api.tomtom.com/routing/1/calculateRoute/".to_owned();
        url.append(self.origin.as_str());
        url.append(":");
        url.append(self.destination.as_str());
        url.append("/json");
        url
    }

    /// The parameters of the request: the key, live traffic, and travel times with and without
    /// it.
    pub fn route_query(&self) -> (query: Vec<(&'static str, String)>)
        ensures
            query@.len() == 3,
            query@[0].0@ == "key"@ && query@[0].1@ == self.api_key@,
            query@[1].0@ == "traffic"@ && query@[1].1@ == "true"@,
            query@[2].0@ == "computeTravelTimeFor"@ && query@[2].1@ == "all"@,
    {
        let mut query: Vec<(&'static str, String)> = Vec::new();
        query.push(("key", self.api_key.clone()));
        query.push(("traffic", "true".to_owned()));
        query.push(("computeTravelTimeFor", "all".to_owned()));
        query
    }

    /// The address that alerts are pushed to; nothing when there is no topic.
    pub fn alert_url(&self) -> (url: Option<String>)
        ensures
            url is Some <==> self.ntfy_topic is Some,
            url matches Some(u) ==> u@ == "https://ntfy.sh/"@ + self.ntfy_topic->0@,
    {
        match &self.ntfy_topic {
            Some(topic) => {
                let mut url = "https://ntfy.sh/".to_owned();
                url.append(topic.as_str());
                Some(url)
            },
            None => None,
        }
    }

    /// What an alert says. The times, the excess and the distance come written out.
    pub open spec fn spec_alert(
        origin: Seq<char>,
        destination: Seq<char>,
        live: Seq<char>,
        baseline: Seq<char>,
        over_pct: Seq<char>,
        distance_km: Seq<char>,
    ) -> Seq<char> {
        "Traffic alert: "@ + origin + " -> "@ + destination + " is "@ + live
            + " in traffic (normally "@ + baseline + "), "@ + over_pct + "% slower, "@
            + distance_km + " km"@
    }

    /// Words an alert. The times, the excess and the distance come written out.
    pub fn alert(&self, live: &str, baseline: &str, over_pct: &str, distance_km: &str) -> (text:
        String)
        ensures
            text@ == Config::spec_alert(
                self.origin@,
                self.destination@,
                live@,
                baseline@,
                over_pct@,
                distance_km@,
            ),
    {
        let mut text = "Traffic alert: ".to_owned();
        text.append(self.origin.as_str());
        text.append(" -> ");
        text.append(self.destination.as_str());
        text.append(" is ");
        text.append(live);
        text.append(" in traffic (normally ");
        text.append(baseline);
        text.append("), ");
        text.append(over_pct);
        text.append("% slower, ");
        text.append(distance_km);
        text.append(" km");
        text
    }
}

/// What came back for a request for a route. `R` is a route as it was read.
#[derive(Debug)]
pub enum Exchange<R> {
    /// The request failed.
    NoReply,
    /// A reply came, but its body could not be read.
    NoBody,
    /// A reply came: whether its status is a success, the status in words, the body, and the
    /// routes in it where they could be read.
    Reply { success: bool, status: String, body: String, routes: Option<Vec<R>> },
}

/// Why there is no reading.
#[derive(Debug)]
pub enum TrafficError {
    /// The request failed.
    Request,
    /// The body could not be read.
    Body,
    /// The status was no success.
    Status { status: String, body: String },
    /// The body holds no list of routes.
    Shape { body: String },
    /// The list of routes is empty.
    NoRoute { origin: String, destination: String },
}

/// The model of a `TrafficError`.
pub enum TrafficErrorView {
    Request,
    Body,
    Status { status: Seq<char>, body: Seq<char> },
    Shape { body: Seq<char> },
    NoRoute { origin: Seq<char>, destination: Seq<char> },
}

impl View for TrafficError {
    type V = TrafficErrorView;

    open spec fn view(&self) -> TrafficErrorView {
        match self {
            TrafficError::Request => TrafficErrorView::Request,
            TrafficError::Body => TrafficErrorView::Body,
            TrafficError::Status { status, body } => TrafficErrorView::Status {
                status: status@,
                body: body@,
            },
            TrafficError::Shape { body } => TrafficErrorView::Shape { body: body@ },
            TrafficError::NoRoute { origin, destination } => TrafficErrorView::NoRoute {
                origin: origin@,
                destination: destination@,
            },
        }
    }
}

impl TrafficErrorView {
    /// The error in words.
    pub open spec fn message(self) -> Seq<char> {
        match self {
            TrafficErrorView::Request => "request to TomTom Routing API failed"@,
            TrafficErrorView::Body => "reading TomTom response body"@,
            TrafficErrorView::Status { status, body } => "TomTom API returned "@ + status + ": "@
                + body,
            TrafficErrorView::Shape { body } => "unexpected TomTom response shape: "@ + body,
            TrafficErrorView::NoRoute { origin, destination } => "TomTom returned no route for '"@
                + origin + "' -> '"@ + destination + "'"@,
        }
    }
}

impl TrafficError {
    /// The error in words.
    pub fn message(&self) -> (text: String)
        ensures
            text@ == self@.message(),
    {
        match self {
            TrafficError::Request => "request to TomTom Routing API failed".to_owned(),
            TrafficError::Body => "reading TomTom response body".to_owned(),
            TrafficError::Status { status, body } => {
                let mut text = "TomTom API returned ".to_owned();
                text.append(status.as_str());
                text.append(": ");
                text.append(body.as_str());
                text
            },
            TrafficError::Shape { body } => {
                let mut text = "unexpected TomTom response shape: ".to_owned();
                text.append(body.as_str());
                text
            },
            TrafficError::NoRoute { origin, destination } => {
                let mut text = "TomTom returned no route for '".to_owned();
                text.append(origin.as_str());
                text.append("' -> '");
                text.append(destination.as_str());
                text.append("'");
                text
            },
        }
    }
}

/// What is made of an exchange: the first route of a successful reply, or the first thing that is
/// wrong with it.
pub open spec fn first_route<R>(
    origin: Seq<char>,
    destination: Seq<char>,
    exchange: Exchange<R>,
) -> Result<R, TrafficErrorView> {
    match exchange {
        Exchange::NoReply => Err(TrafficErrorView::Request),
        Exchange::NoBody => Err(TrafficErrorView::Body),
        Exchange::Reply { success, status, body, routes } => if !success {
            Err(TrafficErrorView::Status { status: status@, body: body@ })
        } else {
            match routes {
                None => Err(TrafficErrorView::Shape { body: body@ }),
                Some(list) => if list@.len() == 0 {
                    Err(TrafficErrorView::NoRoute { origin, destination })
                } else {
                    Ok(list@[0])
                },
            }
        },
    }
}

/// Makes a route out of an exchange, or tells what is wrong with it.
pub fn check_traffic<R>(cfg: &Config, exchange: Exchange<R>) -> (outcome: Result<R, TrafficError>)
    ensures
        match first_route(cfg.origin@, cfg.destination@, exchange) {
            Ok(route) => outcome == Ok::<R, TrafficError>(route),
            Err(e) => outcome matches Err(err) && err@ == e,
        },
{
    match exchange {
        Exchange::NoReply => Err(TrafficError::Request),
        Exchange::NoBody => Err(TrafficError::Body),
        Exchange::Reply { success, status, body, routes } => {
            if !success {
                return Err(TrafficError::Status { status, body });
            }
            match routes {
                None => Err(TrafficError::Shape { body }),
                Some(mut list) => if list.len() == 0 {
                    Err(
                        TrafficError::NoRoute {
                            origin: cfg.origin.clone(),
                            destination: cfg.destination.clone(),
                        },
                    )
                } else {
                    Ok(list.swap_remove(0))
                },
            }
        },
    }
}

/// The first of the three required variables that is absent is named, in this order, and none when
/// all are there; no other variable is required.
pub proof fn law_first_missing_variable_is_named(vars: PollerVars)
    ensures
        missing(vars) == Some(ConfigError::ApiKey) <==> vars.api_key is None,
        missing(vars) == Some(ConfigError::Origin) <==> vars.api_key is Some && vars.origin is None,
        missing(vars) == Some(ConfigError::Destination) <==> vars.api_key is Some
            && vars.origin is Some && vars.destination is None,
        missing(vars) is None <==> vars.api_key is Some && vars.origin is Some
            && vars.destination is Some,
{
}

/// A topic of at least one character is used as it is; an empty one is as good as none.
pub proof fn law_empty_topic_is_none(text: Seq<char>)
    ensures
        topic(Some(text)) is None <==> text == Seq::<char>::empty(),
        topic(Some(text)) matches Some(t) ==> t == text,
        topic(None) is None,
{
    if text.len() == 0 {
        assert(text =~= Seq::<char>::empty());
    }
}

/// The address of a route is the provider's, with the two places at its end, a colon between them.
pub proof fn law_route_address(origin: Seq<char>, destination: Seq<char>)
    ensures
        ({
            let url = Config::spec_route_url(origin, destination);
            let base = "https://api.tomtom.com/routing/1/calculateRoute/"@;
            let o = base.len() as int;
            let d = o + origin.len() + 1;
            &&& url.len() == d + destination.len() + "/json"@.len()
            &&& url.take(o) == base
            &&& url.subrange(o, d - 1) == origin
            &&& url[d - 1] == ':'
            &&& url.subrange(d, d + destination.len()) == destination
            &&& url.skip(d + destination.len()) == "/json"@
        }),
{
    reveal_strlit(":");
    let url = Config::spec_route_url(origin, destination);
    let base = "https://api.tomtom.com/routing/1/calculateRoute/"@;
    let o = base.len() as int;
    let d = o + origin.len() + 1;
    assert(url.take(o) =~= base);
    assert(url.subrange(o, d - 1) =~= origin);
    assert(url.subrange(d, d + destination.len()) =~= destination);
    assert(url.skip(d + destination.len()) =~= "/json"@);
}

/// An alert says where the traffic is, how long the way takes and how long it normally does, by how
/// much it is slower, and how far it is, each as it was handed in.
pub proof fn law_alert_is_worded(
    origin: Seq<char>,
    destination: Seq<char>,
    live: Seq<char>,
    baseline: Seq<char>,
    over_pct: Seq<char>,
    distance_km: Seq<char>,
)
    ensures
        Config::spec_alert(origin, destination, live, baseline, over_pct, distance_km)
            == "Traffic alert: "@ + (origin + (" -> "@ + (destination + (" is "@ + (live + (
        " in traffic (normally "@ + (baseline + ("), "@ + (over_pct + ("% slower, "@ + (distance_km
            + " km"@))))))))))),
{
    assert(Config::spec_alert(origin, destination, live, baseline, over_pct, distance_km)
        =~= "Traffic alert: "@ + (origin + (" -> "@ + (destination + (" is "@ + (live + (
    " in traffic (normally "@ + (baseline + ("), "@ + (over_pct + ("% slower, "@ + (distance_km
        + " km"@))))))))))));
}

/// The first route of a successful reply counts, whatever its status and its body say.
pub proof fn law_first_route_counts<R>(
    origin: Seq<char>,
    destination: Seq<char>,
    status: String,
    body: String,
    routes: Vec<R>,
)
    requires
        routes@.len() > 0,
    ensures
        first_route(
            origin,
            destination,
            Exchange::Reply { success: true, status, body, routes: Some(routes) },
        ) == Ok::<R, TrafficErrorView>(routes@[0]),
{
}

/// Without a first route of a successful reply the first thing that is wrong is told: no reply, no
/// body, a status that is no success, a body without a list of routes, an empty list.
pub proof fn law_first_fault_is_told<R>(
    origin: Seq<char>,
    destination: Seq<char>,
    exchange: Exchange<R>,
)
    ensures
        ({
            let outcome = first_route(origin, destination, exchange);
            &&& outcome == Err::<R, _>(TrafficErrorView::Request) <==> exchange is NoReply
            &&& outcome == Err::<R, _>(TrafficErrorView::Body) <==> exchange is NoBody
            &&& exchange matches Exchange::Reply { success, status, body, routes } ==> {
                &&& !success ==> outcome == Err::<R, _>(
                    TrafficErrorView::Status { status: status@, body: body@ },
                )
                &&& success && routes is None ==> outcome == Err::<R, _>(
                    TrafficErrorView::Shape { body: body@ },
                )
                &&& success && routes is Some && routes->0@.len() == 0 ==> outcome == Err::<R, _>(
                    TrafficErrorView::NoRoute { origin, destination },
                )
                &&& outcome is Ok <==> success && routes is Some && routes->0@.len() > 0
            }
        }),
{
}

/// What is wrong is worded with the texts that came, each whole.
pub proof fn law_faults_are_worded(a: Seq<char>, b: Seq<char>)
    ensures
        TrafficErrorView::Request.message() == "request to TomTom Routing API failed"@,
        TrafficErrorView::Body.message() == "reading TomTom response body"@,
        (TrafficErrorView::Status { status: a, body: b }).message() == "TomTom API returned "@ + (a
            + (": "@ + b)),
        (TrafficErrorView::Shape { body: b }).message() == "unexpected TomTom response shape: "@
            + b,
        (TrafficErrorView::NoRoute { origin: a, destination: b }).message()
            == "TomTom returned no route for '"@ + (a + ("' -> '"@ + (b + "'"@))),
        ConfigError::ApiKey.spec_message()
            == "set TOMTOM_API_KEY (free, no card, at developer.tomtom.com)"@,
        ConfigError::Origin.spec_message()
            == "set ORIGIN as \"lat,lon\", e.g. -1.286389,36.817223"@,
        ConfigError::Destination.spec_message() == "set DESTINATION as \"lat,lon\""@,
{
    assert((TrafficErrorView::Status { status: a, body: b }).message()
        =~= "TomTom API returned "@ + (a + (": "@ + b)));
    assert((TrafficErrorView::NoRoute { origin: a, destination: b }).message()
        =~= "TomTom returned no route for '"@ + (a + ("' -> '"@ + (b + "'"@))));
}

/// The model of a fault shows every text of it, whole.
pub proof fn law_fault_is_shown_whole(fault: TrafficError)
    ensures
        match fault {
            TrafficError::Request => fault@ is Request,
            TrafficError::Body => fault@ is Body,
            TrafficError::Status { status, body } => fault@ == (TrafficErrorView::Status {
                status: status@,
                body: body@,
            }),
            TrafficError::Shape { body } => fault@ == (TrafficErrorView::Shape { body: body@ }),
            TrafficError::NoRoute { origin, destination } => fault@ == (TrafficErrorView::NoRoute {
                origin: origin@,
                destination: destination@,
            }),
        },
{
}

} // verus!
