//! Reading the responses of Spring Boot Actuator endpoints.
//!
//! Each reader takes the decoded response body and returns the records the
//! views list.  Its contract states the result as a function of the body.

use vstd::prelude::*;

use crate::json::{
    display_text, get_opt_str, get_str_or, json_array, json_get, json_object, json_str, opt_get,
    opt_str, str_or, to_display_text, JsonValue,
};
use crate::model::{
    opt_view, AppStatus, Bean, BeanView, Endpoint, EndpointView, EnvProperty, EnvPropertyView,
    HealthComponent, Logger, LoggerView, Mapping, MappingView,
};
use crate::text::{owned, push_str, str_contains, str_eq, trim_end_char, trim_end_matches_char};

verus! {

// ---------------------------------------------------------------------------
// Sequences built member by member
// ---------------------------------------------------------------------------

/// The concatenation of `f` applied to each element of `s`, in order.
pub open spec fn concat_map<A, B>(s: Seq<A>, f: spec_fn(A) -> Seq<B>) -> Seq<B>
    decreases s.len(),
{
    if s.len() == 0 {
        Seq::empty()
    } else {
        concat_map(s.drop_last(), f) + f(s.last())
    }
}

pub proof fn lemma_concat_map_step<A, B>(s: Seq<A>, f: spec_fn(A) -> Seq<B>, i: int)
    requires
        0 <= i < s.len(),
    ensures
        concat_map(s.take(i + 1), f) == concat_map(s.take(i), f) + f(s[i]),
{
    assert(s.take(i + 1).drop_last() =~= s.take(i));
}

pub proof fn lemma_take_all<A>(s: Seq<A>)
    ensures
        s.take(s.len() as int) == s,
{
    assert(s.take(s.len() as int) =~= s);
}

/// The views of a sequence of endpoints.
pub open spec fn endpoint_views(s: Seq<Endpoint>) -> Seq<EndpointView> {
    s.map_values(|e: Endpoint| e@)
}

/// The views of a sequence of beans.
pub open spec fn bean_views(s: Seq<Bean>) -> Seq<BeanView> {
    s.map_values(|b: Bean| b@)
}

/// The views of a sequence of loggers.
pub open spec fn logger_views(s: Seq<Logger>) -> Seq<LoggerView> {
    s.map_values(|l: Logger| l@)
}

/// The views of a sequence of mappings.
pub open spec fn mapping_views(s: Seq<Mapping>) -> Seq<MappingView> {
    s.map_values(|m: Mapping| m@)
}

/// The views of a sequence of environment properties.
pub open spec fn env_views(s: Seq<EnvProperty>) -> Seq<EnvPropertyView> {
    s.map_values(|p: EnvProperty| p@)
}

// ---------------------------------------------------------------------------
// URLs of Actuator endpoints
// ---------------------------------------------------------------------------

/// The URL of an Actuator path below an application's base URL: the base
/// without trailing slashes, followed by `/actuator` and the path.
pub open spec fn actuator_url_spec(base: Seq<char>, path: Seq<char>) -> Seq<char> {
    trim_end_char(base, '/') + "/actuator"@ + path
}

/// The URL of an Actuator path (such as `/health`, or the empty path for
/// the index) below an application's base URL.
pub fn actuator_url(base: &str, path: &str) -> (r: String)
    ensures
        r@ == actuator_url_spec(base@, path@),
{
    let mut r = trim_end_matches_char(base, '/');
    push_str(&mut r, "/actuator");
    push_str(&mut r, path);
    r
}

// ---------------------------------------------------------------------------
// Health and application name
// ---------------------------------------------------------------------------

/// The status that a health response body reports.
pub open spec fn health_status_spec(body: JsonValue) -> AppStatus {
    match opt_str(json_get(body, "status"@)) {
        Some(s) => if s == "UP"@ {
            AppStatus::Up
        } else if s == "DOWN"@ {
            AppStatus::Down
        } else {
            AppStatus::Unknown
        },
        None => AppStatus::Unknown,
    }
}

/// The status that a health response body reports: `UP`, `DOWN`, or
/// unknown for anything else.
pub fn health_status(body: &JsonValue) -> (r: AppStatus)
    ensures
        r == health_status_spec(*body),
{
    match get_opt_str(body, "status") {
        Some(s) => if str_eq(s.as_str(), "UP") {
            AppStatus::Up
        } else if str_eq(s.as_str(), "DOWN") {
            AppStatus::Down
        } else {
            AppStatus::Unknown
        },
        None => AppStatus::Unknown,
    }
}

/// The outcome of a health check: an unreachable application or an error
/// status is down; a body that could not be decoded is unknown.
pub open spec fn health_outcome_spec(reached: bool, success: bool, body: Option<JsonValue>) -> AppStatus {
    if !reached || !success {
        AppStatus::Down
    } else {
        match body {
            Some(b) => health_status_spec(b),
            None => AppStatus::Unknown,
        }
    }
}

/// The status of an application from the result of its health request:
/// whether it answered, whether the answer was a success, and the decoded
/// body if it could be decoded.
pub fn health_outcome(reached: bool, success: bool, body: Option<&JsonValue>) -> (r: AppStatus)
    ensures
        r == health_outcome_spec(
            reached,
            success,
            match body {
                Some(b) => Some(*b),
                None => None,
            },
        ),
{
    if !reached || !success {
        AppStatus::Down
    } else {
        match body {
            Some(b) => health_status(b),
            None => AppStatus::Unknown,
        }
    }
}

/// The application name that an `env/spring.application.name` response
/// reports: its `property.value`, unless that is empty or masked with `*`.
pub open spec fn app_name_spec(body: JsonValue) -> Option<Seq<char>> {
    match opt_str(opt_get(json_get(body, "property"@), "value"@)) {
        Some(v) => if v.len() == 0 || crate::text::contains_seq(v, "*"@) {
            None
        } else {
            Some(v)
        },
        None => None,
    }
}

/// The application name that an `env/spring.application.name` response
/// reports, if it is usable.
pub fn app_name_from_property(body: &JsonValue) -> (r: Option<String>)
    ensures
        r matches Some(s) ==> app_name_spec(*body) == Some(s@),
        r is None ==> app_name_spec(*body) is None,
{
    match body.get("property") {
        Some(p) => match get_opt_str(p, "value") {
            Some(v) => if v.as_str().is_empty() || str_contains(v.as_str(), "*") {
                None
            } else {
                Some(v)
            },
            None => None,
        },
        None => None,
    }
}

// ---------------------------------------------------------------------------
// Endpoints
// ---------------------------------------------------------------------------

/// The endpoint listed by one member of `_links`.
pub open spec fn endpoint_of(m: (String, JsonValue)) -> EndpointView {
    EndpointView { name: m.0@, url: str_or(json_get(m.1, "href"@), ""@) }
}

/// The endpoints that the Actuator index lists under `_links`, in order.
pub open spec fn endpoints_spec(body: JsonValue) -> Seq<EndpointView> {
    match json_object(json_get(body, "_links"@)) {
        Some(links) => links.map_values(|m: (String, JsonValue)| endpoint_of(m)),
        None => Seq::empty(),
    }
}

/// The endpoints are the members of `_links`, one for one and in order:
/// each is named by its key and points at the text of its `href` member
/// (empty when that is missing or not a string).
pub proof fn law_endpoints_are_the_links(body: JsonValue, k: int)
    requires
        0 <= k < members_of(json_get(body, "_links"@)).len(),
    ensures
        endpoints_spec(body).len() == members_of(json_get(body, "_links"@)).len(),
        ({
            let m = members_of(json_get(body, "_links"@))[k];
            endpoints_spec(body)[k] == EndpointView { name: m.0@, url: str_or(json_get(m.1, "href"@), ""@) }
        }),
{
}

/// The endpoints that the Actuator index lists.
pub fn parse_endpoints(body: &JsonValue) -> (r: Vec<Endpoint>)
    ensures
        endpoint_views(r@) == endpoints_spec(*body),
{
    let mut out: Vec<Endpoint> = Vec::new();
    if let Some(l) = body.get("_links") {
        if let Some(links) = l.as_object() {
            let mut i: usize = 0;
            while i < links.len()
                invariant
                    i <= links.len(),
                    out@.len() == i,
                    forall|k: int| 0 <= k < i ==> (#[trigger] out@[k])@ == endpoint_of(links@[k]),
                decreases links.len() - i,
            {
                let url = get_str_or(&links[i].1, "href", "");
                out.push(Endpoint { name: links[i].0.clone(), url });
                i += 1;
            }
            proof {
                assert(endpoint_views(out@) =~= endpoints_spec(*body));
            }
            return out;
        }
    }
    proof {
        assert(endpoint_views(out@) =~= endpoints_spec(*body));
    }
    out
}

// ---------------------------------------------------------------------------
// Beans
// ---------------------------------------------------------------------------

/// The bean described by one member of a context's `beans`.
pub open spec fn bean_of(m: (String, JsonValue)) -> BeanView {
    BeanView {
        name: m.0@,
        scope: str_or(json_get(m.1, "scope"@), "unknown"@),
        bean_type: str_or(json_get(m.1, "type"@), "unknown"@),
    }
}

/// The beans of one application context.
pub open spec fn beans_in_context(ctx: (String, JsonValue)) -> Seq<BeanView> {
    match json_object(json_get(ctx.1, "beans"@)) {
        Some(beans) => beans.map_values(|m: (String, JsonValue)| bean_of(m)),
        None => Seq::empty(),
    }
}

/// The beans of all application contexts, context by context.
pub open spec fn beans_spec(body: JsonValue) -> Seq<BeanView> {
    match json_object(json_get(body, "contexts"@)) {
        Some(ctxs) => concat_map(ctxs, |c: (String, JsonValue)| beans_in_context(c)),
        None => Seq::empty(),
    }
}

/// The members of a value when it is an object, or none.
pub open spec fn members_of(v: Option<JsonValue>) -> Seq<(String, JsonValue)> {
    match json_object(v) {
        Some(m) => m,
        None => Seq::empty(),
    }
}

proof fn lemma_concat_map_has<A, B>(s: Seq<A>, f: spec_fn(A) -> Seq<B>, i: int, j: int)
    requires
        0 <= i < s.len(),
        0 <= j < f(s[i]).len(),
    ensures
        concat_map(s, f).contains(f(s[i])[j]),
    decreases s.len(),
{
    let prev = concat_map(s.drop_last(), f);
    if i == s.len() - 1 {
        assert(concat_map(s, f)[prev.len() + j] == f(s[i])[j]);
    } else {
        assert(s.drop_last()[i] == s[i]);
        lemma_concat_map_has(s.drop_last(), f, i, j);
        let k = choose|k: int| 0 <= k < prev.len() && prev[k] == f(s[i])[j];
        assert(concat_map(s, f)[k] == prev[k]);
    }
}

proof fn lemma_concat_map_from<A, B>(s: Seq<A>, f: spec_fn(A) -> Seq<B>, k: int) -> (w: (int, int))
    requires
        0 <= k < concat_map(s, f).len(),
    ensures
        0 <= w.0 < s.len(),
        0 <= w.1 < f(s[w.0]).len(),
        concat_map(s, f)[k] == f(s[w.0])[w.1],
    decreases s.len(),
{
    let prev = concat_map(s.drop_last(), f);
    if k < prev.len() {
        let w = lemma_concat_map_from(s.drop_last(), f, k);
        assert(s.drop_last()[w.0] == s[w.0]);
        w
    } else {
        (s.len() - 1, k - prev.len())
    }
}

/// Every bean entry of every application context is listed, with the name
/// it is keyed by, the text of its `scope` member and of its `type` member
/// (`unknown` for a member that is missing or not a string).
pub proof fn law_each_bean_entry_is_listed(body: JsonValue, ci: int, j: int)
    requires
        0 <= ci < members_of(json_get(body, "contexts"@)).len(),
        0 <= j < members_of(json_get(members_of(json_get(body, "contexts"@))[ci].1, "beans"@)).len(),
    ensures
        ({
            let m = members_of(json_get(members_of(json_get(body, "contexts"@))[ci].1, "beans"@))[j];
            beans_spec(body).contains(
                BeanView {
                    name: m.0@,
                    scope: str_or(json_get(m.1, "scope"@), "unknown"@),
                    bean_type: str_or(json_get(m.1, "type"@), "unknown"@),
                },
            )
        }),
{
    let ctxs = members_of(json_get(body, "contexts"@));
    let f = |c: (String, JsonValue)| beans_in_context(c);
    assert(f(ctxs[ci])[j] == bean_of(members_of(json_get(ctxs[ci].1, "beans"@))[j]));
    lemma_concat_map_has(ctxs, f, ci, j);
}

/// Every listed bean comes from a bean entry of an application context:
/// its name is the entry's key, its scope and type the texts of the
/// entry's `scope` and `type` members (`unknown` when missing or not a
/// string). The result gives the context's and the entry's positions.
pub proof fn law_each_listed_bean_has_an_entry(body: JsonValue, k: int) -> (w: (int, int))
    requires
        0 <= k < beans_spec(body).len(),
    ensures
        0 <= w.0 < members_of(json_get(body, "contexts"@)).len(),
        0 <= w.1 < members_of(json_get(members_of(json_get(body, "contexts"@))[w.0].1, "beans"@)).len(),
        ({
            let m = members_of(json_get(members_of(json_get(body, "contexts"@))[w.0].1, "beans"@))[w.1];
            beans_spec(body)[k] == BeanView {
                name: m.0@,
                scope: str_or(json_get(m.1, "scope"@), "unknown"@),
                bean_type: str_or(json_get(m.1, "type"@), "unknown"@),
            }
        }),
{
    let ctxs = members_of(json_get(body, "contexts"@));
    let f = |c: (String, JsonValue)| beans_in_context(c);
    let w = lemma_concat_map_from(ctxs, f, k);
    w
}

fn push_beans_of_context(out: &mut Vec<Bean>, ctx: &(String, JsonValue))
    ensures
        bean_views(final(out)@) == bean_views(old(out)@) + beans_in_context(*ctx),
{
    let ghost start = bean_views(out@);
    if let Some(b) = ctx.1.get("beans") {
        if let Some(beans) = b.as_object() {
            let mut i: usize = 0;
            while i < beans.len()
                invariant
                    i <= beans.len(),
                    out@.len() == start.len() + i,
                    forall|k: int| 0 <= k < start.len() ==> (#[trigger] out@[k])@ == start[k],
                    forall|k: int|
                        start.len() <= k < start.len() + i ==> (#[trigger] out@[k])@ == bean_of(
                            beans@[k - start.len()],
                        ),
                decreases beans.len() - i,
            {
                let scope = get_str_or(&beans[i].1, "scope", "unknown");
                let bean_type = get_str_or(&beans[i].1, "type", "unknown");
                out.push(Bean { name: beans[i].0.clone(), scope, bean_type });
                i += 1;
            }
            proof {
                assert(bean_views(out@) =~= start + beans_in_context(*ctx));
            }
            return ;
        }
    }
    proof {
        assert(bean_views(out@) =~= start + beans_in_context(*ctx));
    }
}

/// The beans that the `beans` endpoint reports, context by context.
pub fn parse_beans(body: &JsonValue) -> (r: Vec<Bean>)
    ensures
        bean_views(r@) == beans_spec(*body),
{
    let mut out: Vec<Bean> = Vec::new();
    let ghost f = |c: (String, JsonValue)| beans_in_context(c);
    if let Some(c) = body.get("contexts") {
        if let Some(ctxs) = c.as_object() {
            let mut i: usize = 0;
            proof {
                assert(bean_views(out@) =~= concat_map(ctxs@.take(0), f));
            }
            while i < ctxs.len()
                invariant
                    i <= ctxs.len(),
                    bean_views(out@) == concat_map(ctxs@.take(i as int), f),
                    f == (|c: (String, JsonValue)| beans_in_context(c)),
                decreases ctxs.len() - i,
            {
                push_beans_of_context(&mut out, &ctxs[i]);
                proof {
                    lemma_concat_map_step(ctxs@, f, i as int);
                }
                i += 1;
            }
            proof {
                lemma_take_all(ctxs@);
            }
            return out;
        }
    }
    proof {
        assert(bean_views(out@) =~= beans_spec(*body));
    }
    out
}

// ---------------------------------------------------------------------------
// Loggers
// ---------------------------------------------------------------------------

/// The logger described by one member of `loggers`.
pub open spec fn logger_of(m: (String, JsonValue)) -> LoggerView {
    LoggerView {
        name: m.0@,
        configured_level: opt_str(json_get(m.1, "configuredLevel"@)),
        effective_level: str_or(json_get(m.1, "effectiveLevel"@), "OFF"@),
    }
}

/// The loggers that the `loggers` endpoint reports, in order.
pub open spec fn loggers_spec(body: JsonValue) -> Seq<LoggerView> {
    match json_object(json_get(body, "loggers"@)) {
        Some(ls) => ls.map_values(|m: (String, JsonValue)| logger_of(m)),
        None => Seq::empty(),
    }
}

/// The loggers are the members of `loggers`, one for one and in order:
/// each is named by its key, its configured level is the text of its
/// `configuredLevel` member (none when missing or not a string), and its
/// effective level the text of its `effectiveLevel` member (`OFF` when
/// missing or not a string).
pub proof fn law_loggers_are_the_entries(body: JsonValue, k: int)
    requires
        0 <= k < members_of(json_get(body, "loggers"@)).len(),
    ensures
        loggers_spec(body).len() == members_of(json_get(body, "loggers"@)).len(),
        ({
            let m = members_of(json_get(body, "loggers"@))[k];
            loggers_spec(body)[k] == LoggerView {
                name: m.0@,
                configured_level: opt_str(json_get(m.1, "configuredLevel"@)),
                effective_level: str_or(json_get(m.1, "effectiveLevel"@), "OFF"@),
            }
        }),
{
}

/// The loggers that the `loggers` endpoint reports.
pub fn parse_loggers(body: &JsonValue) -> (r: Vec<Logger>)
    ensures
        logger_views(r@) == loggers_spec(*body),
{
    let mut out: Vec<Logger> = Vec::new();
    if let Some(l) = body.get("loggers") {
        if let Some(ls) = l.as_object() {
            let mut i: usize = 0;
            while i < ls.len()
                invariant
                    i <= ls.len(),
                    out@.len() == i,
                    forall|k: int| 0 <= k < i ==> (#[trigger] out@[k])@ == logger_of(ls@[k]),
                decreases ls.len() - i,
            {
                let configured_level = get_opt_str(&ls[i].1, "configuredLevel");
                let effective_level = get_str_or(&ls[i].1, "effectiveLevel", "OFF");
                out.push(Logger { name: ls[i].0.clone(), configured_level, effective_level });
                i += 1;
            }
            proof {
                assert(logger_views(out@) =~= loggers_spec(*body));
            }
            return out;
        }
    }
    proof {
        assert(logger_views(out@) =~= loggers_spec(*body));
    }
    out
}

/// The configured level sent to change a logger: none for `OFF`, which
/// resets the logger, else the level itself.
pub open spec fn requested_level_spec(level: Seq<char>) -> Option<Seq<char>> {
    if level == "OFF"@ {
        None
    } else {
        Some(level)
    }
}

/// The `configuredLevel` value sent to set a logger to `level`.
pub fn requested_level(level: &str) -> (r: Option<String>)
    ensures
        opt_view(r) == requested_level_spec(level@),
{
    if str_eq(level, "OFF") {
        None
    } else {
        Some(owned(level))
    }
}

/// The index of the first logger with the name.
pub open spec fn logger_index(ls: Seq<LoggerView>, name: Seq<char>, i: int) -> Option<int>
    decreases ls.len() - i,
{
    if i < 0 || i >= ls.len() {
        None
    } else if ls[i].name == name {
        Some(i)
    } else {
        logger_index(ls, name, i + 1)
    }
}

/// The loggers after a level change was accepted: the first logger with the
/// name gets the requested configured level and `level` as effective level.
pub open spec fn with_level(ls: Seq<LoggerView>, name: Seq<char>, level: Seq<char>) -> Seq<
    LoggerView,
> {
    match logger_index(ls, name, 0) {
        Some(i) => ls.update(
            i,
            LoggerView {
                name: ls[i].name,
                configured_level: requested_level_spec(level),
                effective_level: level,
            },
        ),
        None => ls,
    }
}

proof fn lemma_logger_index_bounds(ls: Seq<LoggerView>, name: Seq<char>, i: int)
    ensures
        logger_index(ls, name, i) matches Some(k) ==> i <= k < ls.len() && ls[k].name == name,
    decreases ls.len() - i,
{
    if 0 <= i < ls.len() && ls[i].name != name {
        lemma_logger_index_bounds(ls, name, i + 1);
    }
}

proof fn lemma_logger_index_update(ls: Seq<LoggerView>, name: Seq<char>, i: int, k: int, v: LoggerView)
    requires
        0 <= k < ls.len(),
        v.name == ls[k].name,
    ensures
        logger_index(ls.update(k, v), name, i) == logger_index(ls, name, i),
    decreases ls.len() - i,
{
    if 0 <= i < ls.len() && ls[i].name != name {
        lemma_logger_index_update(ls, name, i + 1, k, v);
    }
}

/// A level change reads back: the first logger with the name gets the
/// level as its effective level and the configured level requested for
/// it, keeping its name; every other logger is unchanged.
pub proof fn law_level_change_reads_back(ls: Seq<LoggerView>, name: Seq<char>, level: Seq<char>)
    ensures
        with_level(ls, name, level).len() == ls.len(),
        logger_index(ls, name, 0) matches Some(i) ==> {
            &&& with_level(ls, name, level)[i].name == name
            &&& with_level(ls, name, level)[i].effective_level == level
            &&& with_level(ls, name, level)[i].configured_level == requested_level_spec(level)
        },
        forall|j: int|
            0 <= j < ls.len() && logger_index(ls, name, 0) != Some(j) ==> #[trigger] with_level(
                ls,
                name,
                level,
            )[j] == ls[j],
{
    lemma_logger_index_bounds(ls, name, 0);
}

/// Of two level changes of a logger, the last one wins.
pub proof fn law_last_level_change_wins(ls: Seq<LoggerView>, name: Seq<char>, first: Seq<char>, second: Seq<char>)
    ensures
        with_level(with_level(ls, name, first), name, second) == with_level(ls, name, second),
{
    lemma_logger_index_bounds(ls, name, 0);
    match logger_index(ls, name, 0) {
        Some(i) => {
            let v = LoggerView {
                name: ls[i].name,
                configured_level: requested_level_spec(first),
                effective_level: first,
            };
            lemma_logger_index_update(ls, name, 0, i, v);
            assert(with_level(with_level(ls, name, first), name, second) =~= with_level(ls, name, second));
        },
        None => {},
    }
}

/// The position of the first logger with the name.
pub fn find_logger(loggers: &Vec<Logger>, name: &str) -> (r: Option<usize>)
    ensures
        r matches Some(i) ==> logger_index(logger_views(loggers@), name@, 0) == Some(i as int),
        r is None ==> logger_index(logger_views(loggers@), name@, 0) is None,
{
    let ghost views = logger_views(loggers@);
    let mut i: usize = 0;
    while i < loggers.len()
        invariant
            i <= loggers.len(),
            views == logger_views(loggers@),
            logger_index(views, name@, 0) == logger_index(views, name@, i as int),
        decreases loggers.len() - i,
    {
        if str_eq(loggers[i].name.as_str(), name) {
            return Some(i);
        }
        i += 1;
    }
    None
}

/// Records locally a level change that the application accepted.
pub fn apply_logger_level(loggers: &mut Vec<Logger>, name: &str, level: &str)
    ensures
        logger_views(final(loggers)@) == with_level(logger_views(old(loggers)@), name@, level@),
{
    let ghost views = logger_views(loggers@);
    proof {
        lemma_logger_index_bounds(views, name@, 0);
    }
    match find_logger(loggers, name) {
        Some(i) => {
            let configured_level = requested_level(level);
            let effective_level = owned(level);
            let n = loggers[i].name.clone();
            loggers.set(i, Logger { name: n, configured_level, effective_level });
            proof {
                assert(logger_views(loggers@) =~= with_level(views, name@, level@));
            }
        },
        None => {},
    }
}

// ---------------------------------------------------------------------------
// Request mappings
// ---------------------------------------------------------------------------

/// The first of the `details.requestMappingConditions.patterns` of an
/// entry.
pub open spec fn first_pattern(entry: JsonValue) -> Option<JsonValue> {
    match json_array(
        opt_get(opt_get(json_get(entry, "details"@), "requestMappingConditions"@), "patterns"@),
    ) {
        Some(ps) => if ps.len() > 0 {
            Some(ps[0])
        } else {
            None
        },
        None => None,
    }
}

/// The mapping described by one entry: its `predicate`, else its first
/// pattern, else `unknown`; its `handler`, else `name`, else `className`,
/// else `unknown`.
pub open spec fn mapping_of(entry: JsonValue) -> MappingView {
    MappingView {
        pattern: match opt_str(json_get(entry, "predicate"@)) {
            Some(p) => p,
            None => str_or(first_pattern(entry), "unknown"@),
        },
        handler: match opt_str(json_get(entry, "handler"@)) {
            Some(h) => h,
            None => match opt_str(json_get(entry, "name"@)) {
                Some(n) => n,
                None => str_or(json_get(entry, "className"@), "unknown"@),
            },
        },
    }
}

/// The mappings of an array of entries (nothing for other values).
pub open spec fn mappings_in_array(v: JsonValue) -> Seq<MappingView> {
    match json_array(Some(v)) {
        Some(items) => items.map_values(|e: JsonValue| mapping_of(e)),
        None => Seq::empty(),
    }
}

/// The arrays to read in a category: the values of an object, or the
/// category itself when it is an array.
pub open spec fn arrays_of_category(cat: JsonValue) -> Seq<JsonValue> {
    match cat {
        JsonValue::Object(ms, _) => ms@.map_values(|m: (String, JsonValue)| m.1),
        JsonValue::Array(_, _) => seq![cat],
        _ => Seq::empty(),
    }
}

/// The mappings of one category.
pub open spec fn mappings_in_category(cat: (String, JsonValue)) -> Seq<MappingView> {
    concat_map(arrays_of_category(cat.1), |a: JsonValue| mappings_in_array(a))
}

/// The mappings of one application context, category by category.
pub open spec fn mappings_in_context(ctx: (String, JsonValue)) -> Seq<MappingView> {
    match json_object(json_get(ctx.1, "mappings"@)) {
        Some(cats) => concat_map(cats, |c: (String, JsonValue)| mappings_in_category(c)),
        None => Seq::empty(),
    }
}

/// The mappings that the `mappings` endpoint reports, context by context.
pub open spec fn mappings_spec(body: JsonValue) -> Seq<MappingView> {
    match json_object(json_get(body, "contexts"@)) {
        Some(ctxs) => concat_map(ctxs, |c: (String, JsonValue)| mappings_in_context(c)),
        None => Seq::empty(),
    }
}

fn mapping_from_entry(entry: &JsonValue) -> (r: Mapping)
    ensures
        r@ == mapping_of(*entry),
{
    let pattern = match get_opt_str(entry, "predicate") {
        Some(p) => p,
        None => {
            let mut first: Option<&JsonValue> = None;
            if let Some(d) = entry.get("details") {
                if let Some(c) = d.get("requestMappingConditions") {
                    if let Some(p) = c.get("patterns") {
                        if let Some(ps) = p.as_array() {
                            if ps.len() > 0 {
                                first = Some(&ps[0]);
                            }
                        }
                    }
                }
            }
            proof {
                assert(match first {
                    Some(x) => first_pattern(*entry) == Some(*x),
                    None => first_pattern(*entry) is None,
                });
            }
            match first {
                Some(x) => match x.as_str() {
                    Some(s) => s.clone(),
                    None => owned("unknown"),
                },
                None => owned("unknown"),
            }
        },
    };
    let handler = match get_opt_str(entry, "handler") {
        Some(h) => h,
        None => match get_opt_str(entry, "name") {
            Some(n) => n,
            None => get_str_or(entry, "className", "unknown"),
        },
    };
    Mapping { pattern, handler }
}

fn push_mappings_in_array(out: &mut Vec<Mapping>, v: &JsonValue)
    ensures
        mapping_views(final(out)@) == mapping_views(old(out)@) + mappings_in_array(*v),
{
    let ghost start = mapping_views(out@);
    if let Some(items) = v.as_array() {
        let mut i: usize = 0;
        while i < items.len()
            invariant
                i <= items.len(),
                out@.len() == start.len() + i,
                forall|k: int| 0 <= k < start.len() ==> (#[trigger] out@[k])@ == start[k],
                forall|k: int|
                    start.len() <= k < start.len() + i ==> (#[trigger] out@[k])@ == mapping_of(
                        items@[k - start.len()],
                    ),
            decreases items.len() - i,
        {
            let m = mapping_from_entry(&items[i]);
            out.push(m);
            i += 1;
        }
        proof {
            assert(mapping_views(out@) =~= start + mappings_in_array(*v));
        }
        return ;
    }
    proof {
        assert(mapping_views(out@) =~= start + mappings_in_array(*v));
    }
}

fn push_mappings_in_category(out: &mut Vec<Mapping>, cat: &(String, JsonValue))
    ensures
        mapping_views(final(out)@) == mapping_views(old(out)@) + mappings_in_category(*cat),
{
    let ghost start = mapping_views(out@);
    let ghost f = |a: JsonValue| mappings_in_array(a);
    match &cat.1 {
        JsonValue::Object(ms, _) => {
            let ghost arrays = ms@.map_values(|m: (String, JsonValue)| m.1);
            let mut i: usize = 0;
            proof {
                assert(mapping_views(out@) =~= start + concat_map(arrays.take(0), f));
            }
            while i < ms.len()
                invariant
                    i <= ms.len(),
                    arrays == ms@.map_values(|m: (String, JsonValue)| m.1),
                    f == (|a: JsonValue| mappings_in_array(a)),
                    mapping_views(out@) == start + concat_map(arrays.take(i as int), f),
                decreases ms.len() - i,
            {
                push_mappings_in_array(out, &ms[i].1);
                proof {
                    lemma_concat_map_step(arrays, f, i as int);
                    assert(arrays[i as int] == ms@[i as int].1);
                    assert(mapping_views(out@) =~= start + concat_map(arrays.take(i + 1), f));
                }
                i += 1;
            }
            proof {
                lemma_take_all(arrays);
            }
        },
        JsonValue::Array(_, _) => {
            push_mappings_in_array(out, &cat.1);
            proof {
                let arrays = arrays_of_category(cat.1);
                assert(arrays.len() == 1);
                assert(arrays.last() == cat.1);
                assert(arrays.drop_last() =~= Seq::<JsonValue>::empty());
                assert(concat_map(arrays.drop_last(), f) =~= Seq::<MappingView>::empty());
                assert(concat_map(arrays, f) == concat_map(arrays.drop_last(), f) + f(arrays.last()));
                assert(concat_map(arrays, f) =~= mappings_in_array(cat.1));
            }
        },
        _ => {
            proof {
                assert(mapping_views(out@) =~= start + mappings_in_category(*cat));
            }
        },
    }
}

fn push_mappings_in_context(out: &mut Vec<Mapping>, ctx: &(String, JsonValue))
    ensures
        mapping_views(final(out)@) == mapping_views(old(out)@) + mappings_in_context(*ctx),
{
    let ghost start = mapping_views(out@);
    let ghost f = |c: (String, JsonValue)| mappings_in_category(c);
    if let Some(m) = ctx.1.get("mappings") {
        if let Some(cats) = m.as_object() {
            let mut i: usize = 0;
            proof {
                assert(mapping_views(out@) =~= start + concat_map(cats@.take(0), f));
            }
            while i < cats.len()
                invariant
                    i <= cats.len(),
                    f == (|c: (String, JsonValue)| mappings_in_category(c)),
                    mapping_views(out@) == start + concat_map(cats@.take(i as int), f),
                decreases cats.len() - i,
            {
                push_mappings_in_category(out, &cats[i]);
                proof {
                    lemma_concat_map_step(cats@, f, i as int);
                    assert(mapping_views(out@) =~= start + concat_map(cats@.take(i + 1), f));
                }
                i += 1;
            }
            proof {
                lemma_take_all(cats@);
            }
            return ;
        }
    }
    proof {
        assert(mapping_views(out@) =~= start + mappings_in_context(*ctx));
    }
}

/// The request mappings that the `mappings` endpoint reports.
pub fn parse_mappings(body: &JsonValue) -> (r: Vec<Mapping>)
    ensures
        mapping_views(r@) == mappings_spec(*body),
{
    let mut out: Vec<Mapping> = Vec::new();
    let ghost f = |c: (String, JsonValue)| mappings_in_context(c);
    if let Some(c) = body.get("contexts") {
        if let Some(ctxs) = c.as_object() {
            let mut i: usize = 0;
            proof {
                assert(mapping_views(out@) =~= concat_map(ctxs@.take(0), f));
            }
            while i < ctxs.len()
                invariant
                    i <= ctxs.len(),
                    f == (|c: (String, JsonValue)| mappings_in_context(c)),
                    mapping_views(out@) == concat_map(ctxs@.take(i as int), f),
                decreases ctxs.len() - i,
            {
                push_mappings_in_context(&mut out, &ctxs[i]);
                proof {
                    lemma_concat_map_step(ctxs@, f, i as int);
                }
                i += 1;
            }
            proof {
                lemma_take_all(ctxs@);
            }
            return out;
        }
    }
    proof {
        assert(mapping_views(out@) =~= mappings_spec(*body));
    }
    out
}

// ---------------------------------------------------------------------------
// Environment
// ---------------------------------------------------------------------------

/// The shown value of a property: its `value` as text (strings unquoted),
/// or empty when it has none.
pub open spec fn env_value_of(prop: JsonValue) -> Seq<char> {
    match json_get(prop, "value"@) {
        Some(v) => display_text(v),
        None => Seq::empty(),
    }
}

/// The properties of one property source.
pub open spec fn props_of_source(source: JsonValue) -> Seq<EnvPropertyView> {
    let name = str_or(json_get(source, "name"@), "unknown"@);
    match json_object(json_get(source, "properties"@)) {
        Some(ps) => ps.map_values(
            |m: (String, JsonValue)|
                EnvPropertyView { name: m.0@, value: env_value_of(m.1), source: name },
        ),
        None => Seq::empty(),
    }
}

/// The properties that the `env` endpoint reports, source by source.
pub open spec fn env_spec(body: JsonValue) -> Seq<EnvPropertyView> {
    match json_array(json_get(body, "propertySources"@)) {
        Some(sources) => concat_map(sources, |s: JsonValue| props_of_source(s)),
        None => Seq::empty(),
    }
}

fn push_props_of_source(out: &mut Vec<EnvProperty>, source: &JsonValue)
    ensures
        env_views(final(out)@) == env_views(old(out)@) + props_of_source(*source),
{
    let ghost start = env_views(out@);
    let source_name = get_str_or(source, "name", "unknown");
    if let Some(p) = source.get("properties") {
        if let Some(props) = p.as_object() {
            let mut i: usize = 0;
            while i < props.len()
                invariant
                    i <= props.len(),
                    out@.len() == start.len() + i,
                    forall|k: int| 0 <= k < start.len() ==> (#[trigger] out@[k])@ == start[k],
                    forall|k: int|
                        start.len() <= k < start.len() + i ==> (#[trigger] out@[k])@ == (
                        EnvPropertyView {
                            name: props@[k - start.len()].0@,
                            value: env_value_of(props@[k - start.len()].1),
                            source: source_name@,
                        }),
                decreases props.len() - i,
            {
                let value = match props[i].1.get("value") {
                    Some(v) => to_display_text(v),
                    None => String::new(),
                };
                out.push(
                    EnvProperty { name: props[i].0.clone(), value, source: source_name.clone() },
                );
                i += 1;
            }
            proof {
                assert(env_views(out@) =~= start + props_of_source(*source));
            }
            return ;
        }
    }
    proof {
        assert(env_views(out@) =~= start + props_of_source(*source));
    }
}

/// The entries of an array value, or none.
pub open spec fn items_of(v: Option<JsonValue>) -> Seq<JsonValue> {
    match json_array(v) {
        Some(items) => items,
        None => Seq::empty(),
    }
}

/// Every property of every property source is listed, under its key, with
/// its value's text and the source's `name` (`unknown` when missing or not
/// a string).
pub proof fn law_each_property_is_listed(body: JsonValue, si: int, j: int)
    requires
        0 <= si < items_of(json_get(body, "propertySources"@)).len(),
        0 <= j < members_of(json_get(items_of(json_get(body, "propertySources"@))[si], "properties"@)).len(),
    ensures
        ({
            let src = items_of(json_get(body, "propertySources"@))[si];
            let m = members_of(json_get(src, "properties"@))[j];
            env_spec(body).contains(
                EnvPropertyView {
                    name: m.0@,
                    value: env_value_of(m.1),
                    source: str_or(json_get(src, "name"@), "unknown"@),
                },
            )
        }),
{
    let srcs = items_of(json_get(body, "propertySources"@));
    let f = |x: JsonValue| props_of_source(x);
    lemma_concat_map_has(srcs, f, si, j);
}

/// Every listed property comes from a property of a property source: its
/// key, its value's text and the source's `name` (`unknown` when missing or
/// not a string). The result gives the source's and the property's
/// positions.
pub proof fn law_each_listed_property_has_a_source(body: JsonValue, k: int) -> (w: (int, int))
    requires
        0 <= k < env_spec(body).len(),
    ensures
        0 <= w.0 < items_of(json_get(body, "propertySources"@)).len(),
        0 <= w.1 < members_of(json_get(items_of(json_get(body, "propertySources"@))[w.0], "properties"@)).len(),
        ({
            let src = items_of(json_get(body, "propertySources"@))[w.0];
            let m = members_of(json_get(src, "properties"@))[w.1];
            env_spec(body)[k] == EnvPropertyView {
                name: m.0@,
                value: env_value_of(m.1),
                source: str_or(json_get(src, "name"@), "unknown"@),
            }
        }),
{
    let srcs = items_of(json_get(body, "propertySources"@));
    let f = |x: JsonValue| props_of_source(x);
    lemma_concat_map_from(srcs, f, k)
}

/// The environment properties that the `env` endpoint reports.
pub fn parse_env(body: &JsonValue) -> (r: Vec<EnvProperty>)
    ensures
        env_views(r@) == env_spec(*body),
{
    let mut out: Vec<EnvProperty> = Vec::new();
    let ghost f = |s: JsonValue| props_of_source(s);
    if let Some(p) = body.get("propertySources") {
        if let Some(sources) = p.as_array() {
            let mut i: usize = 0;
            proof {
                assert(env_views(out@) =~= concat_map(sources@.take(0), f));
            }
            while i < sources.len()
                invariant
                    i <= sources.len(),
                    f == (|s: JsonValue| props_of_source(s)),
                    env_views(out@) == concat_map(sources@.take(i as int), f),
                decreases sources.len() - i,
            {
                push_props_of_source(&mut out, &sources[i]);
                proof {
                    lemma_concat_map_step(sources@, f, i as int);
                }
                i += 1;
            }
            proof {
                lemma_take_all(sources@);
            }
            return out;
        }
    }
    proof {
        assert(env_views(out@) =~= env_spec(*body));
    }
    out
}

// ---------------------------------------------------------------------------
// Dashboard texts
// ---------------------------------------------------------------------------

/// The process id an `env/PID` response reports: the property's value as
/// text.
pub open spec fn pid_spec(body: JsonValue) -> Option<Seq<char>> {
    match opt_get(json_get(body, "property"@), "value"@) {
        Some(v) => Some(display_text(v)),
        None => None,
    }
}

/// The process id an `env/PID` response reports.
pub fn pid_from_property(body: &JsonValue) -> (r: Option<String>)
    ensures
        opt_view(r) == pid_spec(*body),
{
    match body.get("property") {
        Some(p) => match p.get("value") {
            Some(v) => Some(to_display_text(v)),
            None => None,
        },
        None => None,
    }
}

/// A health component as the dashboard lists it: its name, its status
/// (empty when missing) and its details as JSON text (empty when missing).
pub open spec fn component_of(m: (String, JsonValue)) -> (Seq<char>, Seq<char>, Seq<char>) {
    (
        m.0@,
        str_or(json_get(m.1, "status"@), ""@),
        match json_get(m.1, "details"@) {
            Some(d) => display_text(d),
            None => ""@,
        },
    )
}

/// The components of a `health` response, in document order.
pub open spec fn components_spec(body: JsonValue) -> Seq<(Seq<char>, Seq<char>, Seq<char>)> {
    match json_object(json_get(body, "components"@)) {
        Some(ms) => ms.map_values(|m: (String, JsonValue)| component_of(m)),
        None => Seq::empty(),
    }
}

/// The texts of a health component.
pub open spec fn component_texts(c: HealthComponent) -> (Seq<char>, Seq<char>, Seq<char>) {
    (c.name@, c.status@, c.details@)
}

/// The components of a `health` response.
pub fn parse_health_components(body: &JsonValue) -> (r: Vec<HealthComponent>)
    ensures
        r@.map_values(|c: HealthComponent| component_texts(c)) == components_spec(*body),
{
    let mut out: Vec<HealthComponent> = Vec::new();
    if let Some(cs) = body.get("components") {
        if let Some(members) = cs.as_object() {
            let mut i: usize = 0;
            while i < members.len()
                invariant
                    i <= members.len(),
                    out@.len() == i,
                    forall|k: int|
                        0 <= k < i ==> component_texts(#[trigger] out@[k]) == component_of(members@[k]),
                decreases members.len() - i,
            {
                let details = match members[i].1.get("details") {
                    Some(d) => to_display_text(d),
                    None => owned(""),
                };
                let status = get_str_or(&members[i].1, "status", "");
                out.push(HealthComponent { name: members[i].0.clone(), status, details });
                i += 1;
            }
            proof {
                assert(out@.map_values(|c: HealthComponent| component_texts(c)) =~= components_spec(
                    *body,
                ));
            }
            return out;
        }
    }
    proof {
        assert(out@.map_values(|c: HealthComponent| component_texts(c)) =~= components_spec(*body));
    }
    out
}

/// The string items of an array, in order.
pub open spec fn string_items(items: Seq<JsonValue>) -> Seq<Seq<char>>
    decreases items.len(),
{
    if items.len() == 0 {
        Seq::empty()
    } else {
        let rest = string_items(items.drop_last());
        match json_str(items.last()) {
            Some(t) => rest.push(t),
            None => rest,
        }
    }
}

/// The active profiles an `env` response lists.
pub open spec fn profiles_spec(body: JsonValue) -> Seq<Seq<char>> {
    match json_array(json_get(body, "activeProfiles"@)) {
        Some(items) => string_items(items),
        None => Seq::empty(),
    }
}

/// The active profiles an `env` response lists.
pub fn active_profiles(body: &JsonValue) -> (r: Vec<String>)
    ensures
        r@.map_values(|t: String| t@) == profiles_spec(*body),
{
    let mut out: Vec<String> = Vec::new();
    if let Some(ps) = body.get("activeProfiles") {
        if let Some(items) = ps.as_array() {
            let mut i: usize = 0;
            while i < items.len()
                invariant
                    i <= items@.len(),
                    json_array(json_get(*body, "activeProfiles"@)) == Some(items@),
                    out@.map_values(|t: String| t@) == string_items(items@.take(i as int)),
                decreases items@.len() - i,
            {
                proof {
                    assert(items@.take(i + 1).drop_last() =~= items@.take(i as int));
                }
                if let Some(t) = items[i].as_str() {
                    out.push(t.clone());
                }
                proof {
                    assert(out@.map_values(|t: String| t@) =~= string_items(items@.take(i + 1)));
                }
                i += 1;
            }
            proof {
                assert(items@.take(i as int) =~= items@);
            }
            return out;
        }
    }
    proof {
        assert(out@.map_values(|t: String| t@) =~= profiles_spec(*body));
    }
    out
}

/// The Java and Spring Boot versions an `info` response reports
/// (`java.version` and `build.version`), empty when missing.
pub fn info_versions(body: &JsonValue) -> (r: (String, String))
    ensures
        r.0@ == str_or(opt_get(json_get(*body, "java"@), "version"@), ""@),
        r.1@ == str_or(opt_get(json_get(*body, "build"@), "version"@), ""@),
{
    let java = match body.get("java") {
        Some(j) => get_str_or(j, "version", ""),
        None => owned(""),
    };
    let boot = match body.get("build") {
        Some(b) => get_str_or(b, "version", ""),
        None => owned(""),
    };
    (java, boot)
}

} // verus!
