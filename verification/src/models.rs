//! Which model is asked, and whether its provider is well.
use vstd::prelude::*;

use crate::config::{ModelProfile, ModelsConfig, ProfileView};
use crate::name_map::NameMap;
use crate::text::{cat3, owned, texts};
use crate::tools::lists_all;

verus! {

/// How a provider has done. The time until which it is left alone is counted in
/// nanoseconds of the clock that the callers read.
#[derive(Debug, Clone, Copy)]
pub struct ProviderHealth {
    pub available: bool,
    pub cooldown_until: Option<u128>,
    pub failures: u32,
}

/// What a model is wanted for.
#[derive(Debug, Clone, Copy, PartialEq, Eq, Structural)]
pub enum TaskClass {
    Chat,
    Coding,
    Research,
    Summarize,
    Extract,
    ToolUse,
    Planning,
}

/// The profile that a kind of task asks for.
pub open spec fn wanted_profile(task: TaskClass) -> Seq<char> {
    match task {
        TaskClass::Chat | TaskClass::Summarize | TaskClass::Extract => "fast"@,
        TaskClass::Coding | TaskClass::Planning | TaskClass::Research => "smart"@,
        TaskClass::ToolUse => "smart"@,
    }
}

/// The profiles, and how the providers have done.
pub struct RouterView {
    pub profiles: Map<Seq<char>, ProfileView>,
    pub health: Map<Seq<char>, ProviderHealth>,
}

impl RouterView {
    /// Whether a provider is well: nothing bad is known of it, or it is available
    /// and not left alone.
    pub open spec fn healthy(self, provider: Seq<char>, now: u128) -> bool {
        if self.health.contains_key(provider) {
            let h = self.health[provider];
            h.available && (h.cooldown_until matches Some(until) ==> now >= until)
        } else {
            true
        }
    }

    /// Whether a profile is there and its provider is well.
    pub open spec fn usable(self, name: Seq<char>, now: u128) -> bool {
        self.profiles.contains_key(name) && self.healthy(self.profiles[name].provider, now)
    }

    /// The first of the names whose profile can be used.
    pub open spec fn first_usable(self, names: Seq<Seq<char>>, now: u128) -> Option<Seq<char>>
        decreases names.len(),
    {
        if names.len() == 0 {
            None
        } else if self.usable(names[0], now) {
            Some(names[0])
        } else {
            self.first_usable(names.drop_first(), now)
        }
    }

    /// The profile for a task: the one that is wanted where it can be used, else
    /// the first of the others, in the order of `names`.
    pub open spec fn choice(self, task: TaskClass, names: Seq<Seq<char>>, now: u128) -> Option<
        Seq<char>,
    > {
        if self.usable(wanted_profile(task), now) {
            Some(wanted_profile(task))
        } else {
            self.first_usable(names, now)
        }
    }

    /// How a provider has done so far: well, where nothing is known.
    pub open spec fn record(self, provider: Seq<char>) -> ProviderHealth {
        if self.health.contains_key(provider) {
            self.health[provider]
        } else {
            ProviderHealth { available: true, cooldown_until: None, failures: 0 }
        }
    }

    /// A provider has failed: it is left alone for a while, and no longer
    /// available after the fifth failure.
    pub open spec fn failed(self, provider: Seq<char>, now: u128, cooldown_secs: u64) -> RouterView {
        let before = self.record(provider);
        RouterView {
            health: self.health.insert(
                provider,
                ProviderHealth {
                    available: before.available && before.failures + 1 < 5,
                    cooldown_until: Some((now + cooldown_secs * 1_000_000_000) as u128),
                    failures: (before.failures + 1) as u32,
                },
            ),
            ..self
        }
    }

    /// A provider has done well.
    pub open spec fn succeeded(self, provider: Seq<char>) -> RouterView {
        RouterView {
            health: self.health.insert(
                provider,
                ProviderHealth { available: true, cooldown_until: None, failures: 0 },
            ),
            ..self
        }
    }
}

/// Why no model was found.
#[derive(Debug)]
pub enum RouteError {
    /// No provider is well.
    NoneHealthy,
    /// There is no profile of that name.
    NoProfile(String),
}

impl RouteError {
    /// What the error says.
    pub open spec fn says(self) -> Seq<char> {
        match self {
            RouteError::NoneHealthy => "No healthy model providers available"@,
            RouteError::NoProfile(name) => "Model profile '"@ + name@ + "' not found"@,
        }
    }

    /// What the error says.
    pub fn message(&self) -> (r: String)
        ensures
            r@ == self.says(),
    {
        match self {
            RouteError::NoneHealthy => owned("No healthy model providers available"),
            RouteError::NoProfile(name) => cat3("Model profile '", name.as_str(), "' not found"),
        }
    }
}

/// Chooses models.
pub struct ModelRouter {
    profiles: NameMap<ModelProfile>,
    health: NameMap<ProviderHealth>,
}

impl View for ModelRouter {
    type V = RouterView;

    closed spec fn view(&self) -> RouterView {
        RouterView {
            profiles: self.profiles@.map_values(|p: ModelProfile| p@),
            health: self.health@,
        }
    }
}

impl ModelRouter {
    /// The router's maps are in order.
    pub closed spec fn wf(&self) -> bool {
        self.profiles.wf() && self.health.wf()
    }

    /// A router without profiles.
    pub fn new() -> (r: ModelRouter)
        ensures
            r.wf(),
            r@ == (RouterView { profiles: Map::empty(), health: Map::empty() }),
    {
        let r = ModelRouter { profiles: NameMap::new(), health: NameMap::new() };
        proof {
            assert(r@.profiles =~= Map::empty());
            assert(r@.health =~= Map::empty());
        }
        r
    }

    /// Adds a profile, in place of one of the same name.
    pub fn register_profile(&mut self, name: &str, profile: ModelProfile)
        requires
            old(self).wf(),
        ensures
            final(self).wf(),
            final(self)@ == (RouterView {
                profiles: old(self)@.profiles.insert(name@, profile@),
                ..old(self)@
            }),
    {
        let ghost added = profile@;
        self.profiles.insert(name, profile);
        proof {
            assert(self@.profiles =~= old(self)@.profiles.insert(name@, added));
        }
    }

    /// Adds the profiles of a configuration: the fast, the smart and the reasoning
    /// one, as far as they are configured.
    pub fn register_configured(&mut self, models: &ModelsConfig)
        requires
            old(self).wf(),
        ensures
            final(self).wf(),
            final(self)@ == with_configured(old(self)@, *models),
    {
        match &models.fast {
            Some(p) => self.register_profile("fast", p.clone()),
            None => {},
        }
        match &models.smart {
            Some(p) => self.register_profile("smart", p.clone()),
            None => {},
        }
        match &models.reasoning {
            Some(p) => self.register_profile("reasoning", p.clone()),
            None => {},
        }
    }

    /// Whether a provider is well.
    fn is_provider_healthy(&self, provider: &str, now: u128) -> (r: bool)
        requires
            self.wf(),
        ensures
            r == self@.healthy(provider@, now),
    {
        match self.health.get(provider) {
            Some(health) => {
                match health.cooldown_until {
                    Some(until) => if now < until {
                        return false;
                    },
                    None => {},
                }
                health.available
            },
            None => true,
        }
    }

    /// The profile of a name, where its provider is well.
    fn usable_profile(&self, name: &str, now: u128) -> (r: Option<ModelProfile>)
        requires
            self.wf(),
        ensures
            r is Some == self@.usable(name@, now),
            r is Some ==> r->0@ == self@.profiles[name@],
    {
        match self.profiles.get(name) {
            Some(profile) => {
                if self.is_provider_healthy(profile.provider.as_str(), now) {
                    Some(profile.clone())
                } else {
                    None
                }
            },
            None => None,
        }
    }

    /// The profile for a task, where the names of the profiles are tried in that
    /// order.
    pub fn select_among(&self, task_class: &TaskClass, names: &Vec<String>, now: u128) -> (r:
        Result<(String, ModelProfile), RouteError>)
        requires
            self.wf(),
        ensures
            match self@.choice(*task_class, texts(names@), now) {
                Some(name) => r matches Ok((n, p)) && n@ == name && p@ == self@.profiles[name],
                None => r matches Err(RouteError::NoneHealthy),
            },
    {
        let wanted = match task_class {
            TaskClass::Chat | TaskClass::Summarize | TaskClass::Extract => "fast",
            TaskClass::Coding | TaskClass::Planning | TaskClass::Research => "smart",
            TaskClass::ToolUse => "smart",
        };
        match self.usable_profile(wanted, now) {
            Some(profile) => {
                return Ok((owned(wanted), profile));
            },
            None => {},
        }
        let ghost all = texts(names@);
        let mut i: usize = 0;
        proof {
            assert(all.skip(0) =~= all);
        }
        while i < names.len()
            invariant
                self.wf(),
                i <= names@.len(),
                all == texts(names@),
                !self@.usable(wanted_profile(*task_class), now),
                self@.first_usable(all, now) == self@.first_usable(all.skip(i as int), now),
            decreases names@.len() - i,
        {
            proof {
                assert(all.skip(i as int)[0] == names@[i as int]@);
                assert(all.skip(i as int).drop_first() =~= all.skip(i + 1));
            }
            match self.usable_profile(names[i].as_str(), now) {
                Some(profile) => {
                    return Ok((names[i].clone(), profile));
                },
                None => {},
            }
            i = i + 1;
        }
        Err(RouteError::NoneHealthy)
    }

    /// The profile for a task: the one that is wanted where its provider is well,
    /// else some other whose provider is. The order in which the others are tried
    /// is left open.
    pub fn select(&self, task_class: &TaskClass, now: u128) -> (r: Result<
        (String, ModelProfile),
        RouteError,
    >)
        requires
            self.wf(),
        ensures
            self@.usable(wanted_profile(*task_class), now) ==> (r matches Ok((n, p)) && n@
                == wanted_profile(*task_class)),
            r matches Ok((n, p)) ==> self@.usable(n@, now) && p@ == self@.profiles[n@],
            r matches Err(e) ==> e is NoneHealthy && forall|name: Seq<char>|
                !(#[trigger] self@.usable(name, now)),
    {
        let names = self.profiles.names();
        proof {
            assert(self@.profiles.dom() =~= self.profiles@.dom());
            assert(lists_all(texts(names@), self@.profiles));
            lemma_first_usable(self@, texts(names@), now);
        }
        let r = self.select_among(task_class, &names, now);
        proof {
            if self@.choice(*task_class, texts(names@), now) is None {
                assert forall|name: Seq<char>| !(#[trigger] self@.usable(name, now)) by {
                    if self@.usable(name, now) {
                        assert(texts(names@).to_set().contains(name));
                        assert(texts(names@).contains(name));
                    }
                }
            }
        }
        r
    }

    /// The profile of a name.
    pub fn select_by_name(&self, name: &str) -> (r: Result<ModelProfile, RouteError>)
        requires
            self.wf(),
        ensures
            if self@.profiles.contains_key(name@) {
                r matches Ok(p) && p@ == self@.profiles[name@]
            } else {
                r matches Err(RouteError::NoProfile(n)) && n@ == name@
            },
    {
        match self.profiles.get(name) {
            Some(p) => Ok(p.clone()),
            None => Err(RouteError::NoProfile(owned(name))),
        }
    }

    /// Records that a provider has failed.
    pub fn report_failure(&mut self, provider: &str, cooldown_secs: u64, now: u128)
        requires
            old(self).wf(),
            old(self)@.record(provider@).failures < u32::MAX,
            now + cooldown_secs * 1_000_000_000 <= u128::MAX,
        ensures
            final(self).wf(),
            final(self)@ == old(self)@.failed(provider@, now, cooldown_secs),
    {
        let before = match self.health.get(provider) {
            Some(h) => *h,
            None => ProviderHealth { available: true, cooldown_until: None, failures: 0 },
        };
        let failures: u32 = before.failures + 1;
        let until: u128 = now + cooldown_secs as u128 * 1_000_000_000;
        self.health.insert(
            provider,
            ProviderHealth {
                available: before.available && failures < 5,
                cooldown_until: Some(until),
                failures,
            },
        );
        proof {
            assert(self@.health =~= old(self)@.failed(provider@, now, cooldown_secs).health);
        }
    }

    /// How often a provider has failed since it last did well.
    pub fn failures(&self, provider: &str) -> (r: u32)
        requires
            self.wf(),
        ensures
            r == self@.record(provider@).failures,
    {
        match self.health.get(provider) {
            Some(h) => h.failures,
            None => 0,
        }
    }

    /// Records that a provider has done well.
    pub fn report_success(&mut self, provider: &str)
        requires
            old(self).wf(),
        ensures
            final(self).wf(),
            final(self)@ == old(self)@.succeeded(provider@),
    {
        self.health.insert(
            provider,
            ProviderHealth { available: true, cooldown_until: None, failures: 0 },
        );
        proof {
            assert(self@.health =~= old(self)@.succeeded(provider@).health);
        }
    }

    /// All profiles with their names, in an order that is left open.
    pub fn list_profiles(&self) -> (r: Vec<(String, ModelProfile)>)
        requires
            self.wf(),
        ensures
            ({
                let names = Seq::new(r@.len(), |i: int| r@[i].0@);
                &&& lists_all(names, self@.profiles)
                &&& forall|i: int|
                    0 <= i < r@.len() ==> (#[trigger] r@[i]).1@ == self@.profiles[r@[i].0@]
            }),
    {
        let names = self.profiles.names();
        let mut out: Vec<(String, ModelProfile)> = Vec::new();
        proof {
            assert(self@.profiles.dom() =~= self.profiles@.dom());
        }
        for i in 0..names.len()
            invariant
                self.wf(),
                texts(names@).to_set() == self@.profiles.dom(),
                out@.len() == i,
                forall|j: int|
                    0 <= j < i ==> (#[trigger] out@[j]).0@ == names@[j]@ && out@[j].1@
                        == self@.profiles[names@[j]@],
        {
            let ghost all = texts(names@);
            proof {
                assert(all[i as int] == names@[i as int]@);
                assert(all.contains(names@[i as int]@));
                assert(all.to_set().contains(names@[i as int]@));
                assert(self@.profiles.dom().contains(names@[i as int]@));
            }
            match self.profiles.get(names[i].as_str()) {
                Some(p) => out.push((names[i].clone(), p.clone())),
                None => {},
            }
        }
        proof {
            assert(Seq::new(out@.len(), |i: int| out@[i].0@) =~= texts(names@));
        }
        out
    }
}

/// A router with the profiles of a configuration.
pub open spec fn with_configured(r: RouterView, models: ModelsConfig) -> RouterView {
    let a = match models.fast {
        Some(p) => r.profiles.insert("fast"@, p@),
        None => r.profiles,
    };
    let b = match models.smart {
        Some(p) => a.insert("smart"@, p@),
        None => a,
    };
    let c = match models.reasoning {
        Some(p) => b.insert("reasoning"@, p@),
        None => b,
    };
    RouterView { profiles: c, ..r }
}

/// What the first usable name is.
proof fn lemma_first_usable(r: RouterView, names: Seq<Seq<char>>, now: u128)
    ensures
        r.first_usable(names, now) matches Some(name) ==> r.usable(name, now) && names.contains(name),
        r.first_usable(names, now) is None ==> forall|i: int|
            0 <= i < names.len() ==> !(r.usable(#[trigger] names[i], now)),
    decreases names.len(),
{
    if names.len() > 0 && !r.usable(names[0], now) {
        let rest = names.drop_first();
        lemma_first_usable(r, rest, now);
        match r.first_usable(rest, now) {
            Some(name) => {
                let k = choose|k: int| 0 <= k < rest.len() && rest[k] == name;
                assert(names[k + 1] == name);
            },
            None => {
                assert forall|i: int| 0 <= i < names.len() implies !(r.usable(
                    #[trigger] names[i],
                    now,
                )) by {
                    if i > 0 {
                        assert(names[i] == rest[i - 1]);
                    }
                }
            },
        }
    } else if names.len() > 0 {
        assert(names.contains(names[0]));
    }
}

/// A provider that has failed is not asked again before its time is up; after
/// five failures in a row it is not asked at all; and a success makes it well
/// again, whatever was before.
pub proof fn failures_rest_a_provider(
    r: RouterView,
    provider: Seq<char>,
    now: u128,
    cooldown_secs: u64,
    later: u128,
)
    requires
        r.record(provider).failures < u32::MAX,
        now + cooldown_secs * 1_000_000_000 <= u128::MAX,
    ensures
        later < now + cooldown_secs * 1_000_000_000 ==> !r.failed(
            provider,
            now,
            cooldown_secs,
        ).healthy(provider, later),
        r.record(provider).failures >= 4 ==> !r.failed(provider, now, cooldown_secs).healthy(
            provider,
            later,
        ),
        r.succeeded(provider).healthy(provider, later),
        forall|other: Seq<char>|
            other != provider ==> (#[trigger] r.failed(provider, now, cooldown_secs).healthy(
                other,
                later,
            )) == r.healthy(other, later),
{
}

/// A report on a provider.
pub enum Report {
    Failure { provider: Seq<char>, now: u128, cooldown_secs: u64 },
    Success { provider: Seq<char> },
}

impl Report {
    /// The provider that the report is about.
    pub open spec fn about(self) -> Seq<char> {
        match self {
            Report::Failure { provider, .. } => provider,
            Report::Success { provider } => provider,
        }
    }
}

/// A router after reports, one after the other.
pub open spec fn reported(r: RouterView, reports: Seq<Report>) -> RouterView
    decreases reports.len(),
{
    if reports.len() == 0 {
        r
    } else {
        let before = reported(r, reports.drop_last());
        match reports.last() {
            Report::Failure { provider, now, cooldown_secs } => before.failed(
                provider,
                now,
                cooldown_secs,
            ),
            Report::Success { provider } => before.succeeded(provider),
        }
    }
}

/// How many failures of a provider were reported since it was last reported to do
/// well.
pub open spec fn failures_in(reports: Seq<Report>, provider: Seq<char>) -> nat
    decreases reports.len(),
{
    if reports.len() == 0 {
        0
    } else if reports.last().about() != provider {
        failures_in(reports.drop_last(), provider)
    } else {
        match reports.last() {
            Report::Failure { .. } => failures_in(reports.drop_last(), provider) + 1,
            Report::Success { .. } => 0,
        }
    }
}

/// The reports that are about a provider.
pub open spec fn reports_about(reports: Seq<Report>, provider: Seq<char>) -> Seq<Report>
    decreases reports.len(),
{
    if reports.len() == 0 {
        seq![]
    } else {
        let before = reports_about(reports.drop_last(), provider);
        if reports.last().about() == provider {
            before.push(reports.last())
        } else {
            before
        }
    }
}

/// From the fifth failure since a provider last did well, or since the router was
/// made, the provider is not well at any time, and no profile of it can be used. This
/// lasts until it is reported to do well, which sets the count back.
pub proof fn five_failures_stop_a_provider(
    r: RouterView,
    reports: Seq<Report>,
    provider: Seq<char>,
    later: u128,
)
    requires
        !r.health.contains_key(provider),
        forall|i: int|
            0 <= i <= reports.len() ==> failures_in(#[trigger] reports.take(i), provider)
                <= u32::MAX,
    ensures
        reported(r, reports).profiles == r.profiles,
        reported(r, reports).record(provider).failures == failures_in(reports, provider),
        reported(r, reports).record(provider).available == (failures_in(reports, provider) < 5),
        failures_in(reports, provider) >= 5 ==> !reported(r, reports).healthy(provider, later),
        failures_in(reports, provider) >= 5 ==> forall|name: Seq<char>|
            r.profiles.contains_key(name) && (#[trigger] r.profiles[name]).provider == provider
                ==> !reported(r, reports).usable(name, later),
    decreases reports.len(),
{
    assert(reports.take(reports.len() as int) =~= reports);
    if reports.len() > 0 {
        let head = reports.drop_last();
        assert forall|i: int| 0 <= i <= head.len() implies failures_in(
            #[trigger] head.take(i),
            provider,
        ) <= u32::MAX by {
            assert(head.take(i) =~= reports.take(i));
        }
        five_failures_stop_a_provider(r, head, provider, later);
    }
}

/// How a provider does is told by the reports about it alone.
pub proof fn providers_do_not_touch_each_other(
    r: RouterView,
    reports: Seq<Report>,
    provider: Seq<char>,
    later: u128,
)
    ensures
        reported(r, reports).record(provider) == reported(
            r,
            reports_about(reports, provider),
        ).record(provider),
        reported(r, reports).healthy(provider, later) == reported(
            r,
            reports_about(reports, provider),
        ).healthy(provider, later),
    decreases reports.len(),
{
    if reports.len() > 0 {
        providers_do_not_touch_each_other(r, reports.drop_last(), provider, later);
        let before = reports_about(reports.drop_last(), provider);
        if reports.last().about() == provider {
            assert(before.push(reports.last()).drop_last() =~= before);
        }
    }
}

/// A short answer, a summary and an extraction want the fast model; writing code,
/// research, planning and the use of tools want the smart one.
pub proof fn tasks_want_their_model(task: TaskClass)
    ensures
        task == TaskClass::Chat || task == TaskClass::Summarize || task == TaskClass::Extract
            ==> wanted_profile(task) == "fast"@,
        task == TaskClass::Coding || task == TaskClass::Planning || task == TaskClass::Research
            || task == TaskClass::ToolUse ==> wanted_profile(task) == "smart"@,
{
}

/// The profile that a task wants is chosen where it is there and its provider is well;
/// else the first of the others that can be used; and none only where none of them can
/// be used.
pub proof fn wanted_models_are_chosen(
    r: RouterView,
    task: TaskClass,
    names: Seq<Seq<char>>,
    now: u128,
    k: int,
)
    requires
        0 <= k <= names.len(),
        forall|i: int| 0 <= i < k ==> !r.usable(#[trigger] names[i], now),
    ensures
        r.usable(wanted_profile(task), now) ==> r.choice(task, names, now) == Some(
            wanted_profile(task),
        ),
        !r.usable(wanted_profile(task), now) && k < names.len() && r.usable(names[k], now)
            ==> r.choice(task, names, now) == Some(names[k]),
        !r.usable(wanted_profile(task), now) && k == names.len() ==> r.choice(
            task,
            names,
            now,
        ) is None,
    decreases k,
{
    if k > 0 {
        assert(!r.usable(names[0], now));
        let rest = names.drop_first();
        assert forall|i: int| 0 <= i < k - 1 implies !r.usable(#[trigger] rest[i], now) by {
            assert(rest[i] == names[i + 1]);
        }
        wanted_models_are_chosen(r, task, rest, now, k - 1);
        if k < names.len() {
            assert(rest[k - 1] == names[k]);
        }
    }
}

/// A provider of which nothing is known is well. One that has failed less than five times
/// in a row is well again as soon as its time is up, at that very moment and later.
pub proof fn providers_come_back(
    r: RouterView,
    provider: Seq<char>,
    now: u128,
    cooldown_secs: u64,
    later: u128,
)
    requires
        now + cooldown_secs * 1_000_000_000 <= u128::MAX,
    ensures
        !r.health.contains_key(provider) ==> r.healthy(provider, later),
        r.record(provider).available && r.record(provider).failures < 4 && later >= now
            + cooldown_secs * 1_000_000_000 ==> r.failed(provider, now, cooldown_secs).healthy(
            provider,
            later,
        ),
        r.failed(provider, now, cooldown_secs).profiles == r.profiles,
        r.succeeded(provider).profiles == r.profiles,
        forall|other: Seq<char>|
            other != provider ==> (#[trigger] r.succeeded(provider).healthy(other, later))
                == r.healthy(other, later),
        forall|name: Seq<char>| #[trigger]
            r.usable(name, later) <==> r.profiles.contains_key(name) && r.healthy(
                r.profiles[name].provider,
                later,
            ),
{
}

/// The profiles of a configuration are there under the names `fast`, `smart` and
/// `reasoning`, as far as they are configured, and the other profiles stay.
pub proof fn configured_profiles_are_there(r: RouterView, models: ModelsConfig, name: Seq<char>)
    ensures
        models.fast matches Some(p) ==> with_configured(r, models).profiles.contains_key("fast"@)
            && with_configured(r, models).profiles["fast"@] == p@,
        models.smart matches Some(p) ==> with_configured(r, models).profiles.contains_key("smart"@)
            && with_configured(r, models).profiles["smart"@] == p@,
        models.reasoning matches Some(p) ==> with_configured(r, models).profiles.contains_key(
            "reasoning"@,
        ) && with_configured(r, models).profiles["reasoning"@] == p@,
        name != "fast"@ && name != "smart"@ && name != "reasoning"@ ==> (with_configured(
            r,
            models,
        ).profiles.contains_key(name) <==> r.profiles.contains_key(name)) && (
        r.profiles.contains_key(name) ==> with_configured(r, models).profiles[name]
            == r.profiles[name]),
        with_configured(r, models).health == r.health,
{
    reveal_strlit("fast");
    reveal_strlit("smart");
    reveal_strlit("reasoning");
    assert("fast"@.len() == 4 && "smart"@.len() == 5 && "reasoning"@.len() == 9);
}

/// A profile that there is none of is named.
pub proof fn missing_profiles_are_named(name: String)
    ensures
        RouteError::NoProfile(name).says() == "Model profile '"@ + name@ + "' not found"@,
        RouteError::NoneHealthy.says() == "No healthy model providers available"@,
{
}

} // verus!
