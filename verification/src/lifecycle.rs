//! The services of the program: which of them run, what a change of the settings does to them, and
//! what is shown of them.
use crate::account::{AccountStore, AppSettings};
use crate::proxy::ProxyStats;
use crate::text::{concat2, concat3, show_i64, show_u64};
use vstd::prelude::*;

verus! {

// ---------------------------------------------------------------------------
// Starting and stopping
// ---------------------------------------------------------------------------

/// What is to be done with a service.
#[derive(Debug, Clone, Copy, PartialEq, Eq, Structural)]
pub enum ServiceAction {
    /// Nothing.
    Keep,
    /// Start it.
    Start,
    /// Stop it.
    Stop,
    /// Stop it where it runs, and start it.
    Restart,
}

/// Which services run.
#[derive(Debug, Clone, Copy, PartialEq, Eq, Structural)]
pub struct Running {
    pub scheduler: bool,
    pub proxy: bool,
    pub quota_refresh: bool,
}

/// What is to be done with each service.
#[derive(Debug, Clone, Copy, PartialEq, Eq, Structural)]
pub struct ServicePlan {
    pub scheduler: ServiceAction,
    pub proxy: ServiceAction,
    pub quota_refresh: ServiceAction,
}

/// What a switch that was turned from `before` to `after` does to a service.
pub open spec fn switched(before: bool, after: bool, running: bool) -> ServiceAction {
    if !before && after && !running {
        ServiceAction::Start
    } else if before && !after && running {
        ServiceAction::Stop
    } else {
        ServiceAction::Keep
    }
}

/// What a change of the settings does to the proxy: besides, it is restarted where it stays
/// switched on and listens somewhere else.
pub open spec fn proxy_switched(before: AppSettings, after: AppSettings, running: bool) -> ServiceAction {
    if before.proxy_enabled && after.proxy_enabled && (before.proxy_port != after.proxy_port
        || before.proxy_allow_lan != after.proxy_allow_lan) {
        ServiceAction::Restart
    } else {
        switched(before.proxy_enabled, after.proxy_enabled, running)
    }
}

/// What a change of the settings does to the services.
pub open spec fn plan_of(before: AppSettings, after: AppSettings, running: Running) -> ServicePlan {
    ServicePlan {
        scheduler: switched(before.background_refresh, after.background_refresh, running.scheduler),
        proxy: proxy_switched(before, after, running.proxy),
        quota_refresh: switched(
            before.quota_refresh_enabled,
            after.quota_refresh_enabled,
            running.quota_refresh,
        ),
    }
}

fn switch_service(before: bool, after: bool, running: bool) -> (action: ServiceAction)
    ensures
        action == switched(before, after, running),
{
    if !before && after && !running {
        ServiceAction::Start
    } else if before && !after && running {
        ServiceAction::Stop
    } else {
        ServiceAction::Keep
    }
}

/// Puts new settings in place, and says what is to be done with the services once the store was
/// written to disk.
pub fn update_settings(store: &mut AccountStore, settings: AppSettings, running: Running) -> (plan:
    ServicePlan)
    ensures
        final(store).settings == settings,
        final(store).accounts@ == old(store).accounts@,
        final(store).current == old(store).current,
        plan == plan_of(old(store).settings, settings, running),
{
    let before: AppSettings = store.settings;
    store.settings = settings;
    let proxy: ServiceAction = if before.proxy_enabled && settings.proxy_enabled && (
    before.proxy_port != settings.proxy_port || before.proxy_allow_lan
        != settings.proxy_allow_lan) {
        ServiceAction::Restart
    } else {
        switch_service(before.proxy_enabled, settings.proxy_enabled, running.proxy)
    };
    ServicePlan {
        scheduler: switch_service(
            before.background_refresh,
            settings.background_refresh,
            running.scheduler,
        ),
        proxy,
        quota_refresh: switch_service(
            before.quota_refresh_enabled,
            settings.quota_refresh_enabled,
            running.quota_refresh,
        ),
    }
}

/// What is to be done with the services when the program starts: those that are switched on are
/// started.
pub fn run(settings: &AppSettings) -> (plan: ServicePlan)
    ensures
        plan.scheduler == (if settings.background_refresh {
            ServiceAction::Start
        } else {
            ServiceAction::Keep
        }),
        plan.proxy == (if settings.proxy_enabled {
            ServiceAction::Start
        } else {
            ServiceAction::Keep
        }),
        plan.quota_refresh == (if settings.quota_refresh_enabled {
            ServiceAction::Start
        } else {
            ServiceAction::Keep
        }),
{
    ServicePlan {
        scheduler: switch_service(false, settings.background_refresh, false),
        proxy: switch_service(false, settings.proxy_enabled, false),
        quota_refresh: switch_service(false, settings.quota_refresh_enabled, false),
    }
}

/// Whether a service runs after what was done with it.
pub open spec fn runs_after(action: ServiceAction, running: bool) -> bool {
    match action {
        ServiceAction::Keep => running,
        ServiceAction::Start => true,
        ServiceAction::Stop => false,
        ServiceAction::Restart => true,
    }
}

/// Exactly those services run that are switched on.
pub open spec fn in_step(settings: AppSettings, running: Running) -> bool {
    &&& running.scheduler == settings.background_refresh
    &&& running.proxy == settings.proxy_enabled
    &&& running.quota_refresh == settings.quota_refresh_enabled
}

/// Which services run after a plan was carried out.
pub open spec fn carried_out(plan: ServicePlan, running: Running) -> Running {
    Running {
        scheduler: runs_after(plan.scheduler, running.scheduler),
        proxy: runs_after(plan.proxy, running.proxy),
        quota_refresh: runs_after(plan.quota_refresh, running.quota_refresh),
    }
}

/// Where exactly those services run that are switched on, the same holds after a change of the
/// settings.
pub proof fn services_follow_the_settings(
    before: AppSettings,
    after: AppSettings,
    running: Running,
)
    requires
        in_step(before, running),
    ensures
        in_step(after, carried_out(plan_of(before, after, running), running)),
{
}

/// The proxy that runs after a change of the settings is one that was started with them, or the
/// settings say nothing new of where it listens.
pub proof fn proxy_listens_where_it_is_told(
    before: AppSettings,
    after: AppSettings,
    running: Running,
)
    requires
        in_step(before, running),
        after.proxy_enabled,
    ensures
        plan_of(before, after, running).proxy == ServiceAction::Keep ==> before.proxy_port
            == after.proxy_port && before.proxy_allow_lan == after.proxy_allow_lan,
{
}

/// Settings that are put in place twice change nothing the second time.
pub proof fn same_settings_change_nothing(settings: AppSettings, running: Running)
    ensures
        plan_of(settings, settings, running) == (ServicePlan {
            scheduler: ServiceAction::Keep,
            proxy: ServiceAction::Keep,
            quota_refresh: ServiceAction::Keep,
        }),
{
}

// ---------------------------------------------------------------------------
// What is shown
// ---------------------------------------------------------------------------

/// What is shown of the proxy.
#[derive(Debug)]
pub struct ProxyStatus {
    pub enabled: bool,
    pub port: u16,
    pub is_running: bool,
    pub base_url: String,
    pub allow_lan: bool,
    pub lan_base_url: Option<String>,
    pub total_requests: u64,
    pub auto_switches: u64,
}

/// The text of an IPv4 address.
pub open spec fn ip_text(ip: Seq<u8>) -> Seq<char> {
    crate::text::decimal(ip[0] as nat) + "."@ + crate::text::decimal(ip[1] as nat) + "."@
        + crate::text::decimal(ip[2] as nat) + "."@ + crate::text::decimal(ip[3] as nat)
}

/// The address at which the proxy serves a host.
pub open spec fn proxy_url(host: Seq<char>, port: u16) -> Seq<char> {
    "http://"@ + host + ":"@ + crate::text::decimal(port as nat) + "/v1"@
}

fn show_ip(ip: &[u8; 4]) -> (text: String)
    ensures
        text@ == ip_text(ip@),
{
    let mut text: String = show_u64(ip[0] as u64);
    text.append(".");
    text.append(show_u64(ip[1] as u64).as_str());
    text.append(".");
    text.append(show_u64(ip[2] as u64).as_str());
    text.append(".");
    text.append(show_u64(ip[3] as u64).as_str());
    text
}

/// The address at which the proxy serves a host.
pub fn show_proxy_url(host: &str, port: u16) -> (url: String)
    ensures
        url@ == proxy_url(host@, port),
{
    let mut url: String = concat3("http://", host, ":");
    url.append(show_u64(port as u64).as_str());
    url.append("/v1");
    url
}

/// The address of the machine in the local network, from the one that it reaches the outside with:
/// none where that is the machine itself.
pub fn detect_lan_ipv4(local: Option<[u8; 4]>) -> (ip: Option<[u8; 4]>)
    ensures
        ip == match local {
            Some(a) => if a@[0] == 127 {
                None
            } else {
                Some(a)
            },
            None => None,
        },
{
    match local {
        Some(a) => if a[0] == 127 {
            None
        } else {
            Some(a)
        },
        None => None,
    }
}

/// What is shown of the proxy. `lan` is the address of the machine in the local network.
pub fn get_proxy_status(
    settings: &AppSettings,
    is_running: bool,
    lan: Option<[u8; 4]>,
    stats: &ProxyStats,
) -> (status: ProxyStatus)
    ensures
        status.enabled == settings.proxy_enabled,
        status.port == settings.proxy_port,
        status.is_running == is_running,
        status.base_url@ == proxy_url("localhost"@, settings.proxy_port),
        status.allow_lan == settings.proxy_allow_lan,
        crate::json::opt_text(status.lan_base_url) == match lan {
            Some(ip) => if settings.proxy_allow_lan {
                Some(proxy_url(ip_text(ip@), settings.proxy_port))
            } else {
                None
            },
            None => None,
        },
        status.total_requests == stats.total_requests,
        status.auto_switches == stats.auto_switches,
{
    let lan_base_url: Option<String> = if settings.proxy_allow_lan {
        match lan {
            Some(ip) => {
                let host: String = show_ip(&ip);
                Some(show_proxy_url(host.as_str(), settings.proxy_port))
            },
            None => None,
        }
    } else {
        None
    };
    ProxyStatus {
        enabled: settings.proxy_enabled,
        port: settings.proxy_port,
        is_running,
        base_url: show_proxy_url("localhost", settings.proxy_port),
        allow_lan: settings.proxy_allow_lan,
        lan_base_url,
        total_requests: stats.total_requests,
        auto_switches: stats.auto_switches,
    }
}

/// The text that the icon in the tray shows.
pub open spec fn tooltip_text(store: AccountStore) -> Seq<char> {
    match store.current {
        None => "Codex Switcher - Not signed in"@,
        Some(_) => match store.current_account() {
            None => "Codex Switcher"@,
            Some(a) => "Codex Switcher - "@ + a.name@ + match a.cached_quota {
                Some(q) => " | 5H: "@ + crate::text::decimal_int(q.five_hour_left as int)
                    + "%  Wk: "@ + crate::text::decimal_int(q.weekly_left as int) + "%"@,
                None => Seq::empty(),
            },
        },
    }
}

/// The text that the icon in the tray shows.
pub fn update_tray_menu(store: &AccountStore) -> (tooltip: String)
    ensures
        tooltip@ == tooltip_text(*store),
{
    if store.current.is_none() {
        return "Codex Switcher - Not signed in".to_owned();
    }
    match store.find_current() {
        None => "Codex Switcher".to_owned(),
        Some(i) => {
            let name: String = concat2("Codex Switcher - ", store.accounts[i].name.as_str());
            let quota: String = match &store.accounts[i].cached_quota {
                Some(q) => {
                    let mut text: String = concat3(
                        " | 5H: ",
                        show_i64(q.five_hour_left as i64).as_str(),
                        "%  Wk: ",
                    );
                    text.append(show_i64(q.weekly_left as i64).as_str());
                    text.append("%");
                    text
                },
                None => String::new(),
            };
            concat2(name.as_str(), quota.as_str())
        },
    }
}


/// A service is touched by a change of its own switch only: switched on, it is started where it
/// does not run; switched off, it is stopped where it runs. The proxy is restarted just where it
/// stays switched on and listens at another port, or for others than before.
pub proof fn services_follow_their_switches(
    before: AppSettings,
    after: AppSettings,
    running: Running,
)
    ensures
        ({
            let plan = plan_of(before, after, running);
            &&& plan.scheduler == ServiceAction::Start <==> !before.background_refresh
                && after.background_refresh && !running.scheduler
            &&& plan.scheduler == ServiceAction::Stop <==> before.background_refresh
                && !after.background_refresh && running.scheduler
            &&& plan.scheduler != ServiceAction::Restart
            &&& plan.quota_refresh == ServiceAction::Start <==> !before.quota_refresh_enabled
                && after.quota_refresh_enabled && !running.quota_refresh
            &&& plan.quota_refresh == ServiceAction::Stop <==> before.quota_refresh_enabled
                && !after.quota_refresh_enabled && running.quota_refresh
            &&& plan.quota_refresh != ServiceAction::Restart
            &&& plan.proxy == ServiceAction::Start <==> !before.proxy_enabled && after.proxy_enabled
                && !running.proxy
            &&& plan.proxy == ServiceAction::Stop <==> before.proxy_enabled && !after.proxy_enabled
                && running.proxy
            &&& plan.proxy == ServiceAction::Restart <==> before.proxy_enabled
                && after.proxy_enabled && !(before.proxy_port == after.proxy_port
                && before.proxy_allow_lan == after.proxy_allow_lan)
        }),
{
}

/// The address of the proxy is made of the host and the port that it is asked for.
pub proof fn addresses_name_host_and_port(host: Seq<char>, port: u16)
    ensures
        ({
            let url = proxy_url(host, port);
            let head = "http://"@ + host + ":"@;
            &&& url.take(head.len() as int) == head
            &&& url.skip(head.len() as int) == crate::text::decimal(port as nat) + "/v1"@
            &&& crate::text::begins(url, "http://"@)
        }),
{
    let head = "http://"@ + host + ":"@;
    let url = proxy_url(host, port);
    assert(url =~= head + crate::text::decimal(port as nat) + "/v1"@);
    assert(url.take(head.len() as int) =~= head);
    assert(url.skip(head.len() as int) =~= crate::text::decimal(port as nat) + "/v1"@);
    assert(url.subrange(0, 0 + "http://"@.len() as int) =~= "http://"@);
}

/// The text of an address is that of its four numbers, in their order, with dots between them.
pub proof fn addresses_are_written_with_dots(ip: Seq<u8>)
    requires
        ip.len() == 4,
    ensures
        ip_text(ip) == crate::text::joined(
            Seq::new(4, |i: int| crate::text::decimal(ip[i] as nat)),
            "."@,
        ),
{
    let parts = Seq::new(4, |i: int| crate::text::decimal(ip[i] as nat));
    reveal_with_fuel(crate::text::joined, 5);
    assert(ip_text(ip) =~= crate::text::joined(parts, "."@));
}

/// The icon says that nobody is signed in just where no account is the active one; it names the
/// active account first, and what that has left of its five hours before what it has left of its
/// week.
pub proof fn what_the_icon_says(store: AccountStore)
    ensures
        store.current is None ==> tooltip_text(store) == "Codex Switcher - Not signed in"@,
        store.current is Some && store.current_account() is None ==> tooltip_text(store)
            == "Codex Switcher"@,
        store.current is Some && (store.current_account() matches Some(a) && a.cached_quota is None)
            ==> tooltip_text(store) == "Codex Switcher - "@ + store.current_account()->0.name@,
        store.current is Some && (store.current_account() matches Some(a) && a.cached_quota is Some)
            ==> ({
            let a = store.current_account()->0;
            tooltip_text(store) == "Codex Switcher - "@ + a.name@ + " | 5H: "@
                + crate::text::decimal_int(a.cached_quota->0.five_hour_left as int) + "%  Wk: "@
                + crate::text::decimal_int(a.cached_quota->0.weekly_left as int) + "%"@
        }),
{
    if store.current is Some {
        if let Some(a) = store.current_account() {
            if a.cached_quota is Some {
                assert(tooltip_text(store) =~= "Codex Switcher - "@ + a.name@ + " | 5H: "@
                    + crate::text::decimal_int(a.cached_quota->0.five_hour_left as int)
                    + "%  Wk: "@ + crate::text::decimal_int(a.cached_quota->0.weekly_left as int)
                    + "%"@);
            } else {
                assert(tooltip_text(store) =~= "Codex Switcher - "@ + a.name@);
            }
        }
    }
}

} // verus!
