use vstd::prelude::*;

use crate::cache::PayloadCache;
use crate::model::{FetchOutput, TodayMenu};
use crate::restaurant::{
    available_restaurants, is_antell_code, restaurant_for_code, spec_catalog, spec_is_antell_code,
    spec_restaurant_for_code, Provider, Restaurant,
};
use crate::settings::Settings;
use crate::text::{
    ascii_lower_seq, ascii_lower_chars, check_contains_sub, contains_sub, str_eq, str_to_chars,
};

verus! {

/// The display state of the currently selected restaurant.
#[derive(Debug, Clone, Copy, PartialEq, Eq, Structural)]
pub enum FetchStatus {
    Idle,
    Loading,
    Okay,
    Stale,
    Error,
}

/// How one delivered fetch result was handled.
#[derive(Debug, Clone, Copy, PartialEq, Eq, Structural)]
pub enum FetchApplyOutcome {
    CurrentSuccess,
    CurrentFailure,
    BackgroundSuccess,
    BackgroundFailure,
}

/// Everything shown for the selected restaurant, plus the settings.
pub struct AppState {
    pub settings: Settings,
    pub status: FetchStatus,
    pub loading_started_epoch_ms: i64,
    pub error_message: String,
    pub stale_network_error: bool,
    pub today_menu: Option<TodayMenu>,
    pub restaurant_name: String,
    pub restaurant_url: String,
    pub raw_payload: String,
    pub provider: Provider,
    pub payload_date: String,
    pub stale_date: bool,
}

/// One completed fetch, delivered back to the owning loop.
pub struct FetchMessage {
    pub requested_code: String,
    pub requested_language: String,
    pub result: FetchOutput,
}

/// The refresh controller: display state, the in-flight set, the retry
/// step, the prefetch clock and the payload cache.
pub struct App {
    pub state: AppState,
    pub in_flight_codes: Vec<String>,
    pub retry_step: usize,
    pub last_prefetch_ms: i64,
    pub cache: PayloadCache,
}

pub open spec fn in_flight_of(v: Seq<String>) -> Seq<Seq<char>> {
    v.map_values(|s: String| s@)
}

impl App {
    pub open spec fn wf(&self) -> bool {
        self.cache.wf()
    }

    /// A fresh controller around loaded settings: idle, nothing shown,
    /// nothing in flight.
    pub fn new(settings: Settings) -> (r: App)
        ensures
            r.wf(),
            r.state.settings == settings,
            r.state.status == FetchStatus::Idle,
            r.state.loading_started_epoch_ms == 0,
            r.state.error_message@ == Seq::<char>::empty(),
            r.state.stale_network_error == false,
            r.state.today_menu is None,
            r.state.restaurant_name@ == Seq::<char>::empty(),
            r.state.restaurant_url@ == Seq::<char>::empty(),
            r.state.raw_payload@ == Seq::<char>::empty(),
            r.state.provider == spec_restaurant_for_code(
                settings.restaurant_code@,
                settings.enable_antell_restaurants,
            ).provider,
            r.state.payload_date@ == Seq::<char>::empty(),
            r.state.stale_date == false,
            in_flight_of(r.in_flight_codes@) == Seq::<Seq<char>>::empty(),
            r.retry_step == 0,
            r.last_prefetch_ms == 0,
            r.cache.view_map() == Map::<(Provider, Seq<char>, Seq<char>), (Seq<char>, i64)>::empty(),
    {
        let restaurant = restaurant_for_code(
            settings.restaurant_code.as_str(),
            settings.enable_antell_restaurants,
        );
        let r = App {
            state: AppState {
                provider: restaurant.provider,
                settings,
                status: FetchStatus::Idle,
                loading_started_epoch_ms: 0,
                error_message: String::new(),
                stale_network_error: false,
                today_menu: None,
                restaurant_name: String::new(),
                restaurant_url: String::new(),
                raw_payload: String::new(),
                payload_date: String::new(),
                stale_date: false,
            },
            in_flight_codes: Vec::new(),
            retry_step: 0,
            last_prefetch_ms: 0,
            cache: PayloadCache::new(),
        };
        proof {
            assert(in_flight_of(r.in_flight_codes@) =~= Seq::<Seq<char>>::empty());
        }
        r
    }

    fn in_flight_contains(&self, code: &str) -> (r: bool)
        ensures
            r == in_flight_of(self.in_flight_codes@).contains(code@),
    {
        let ghost sf = in_flight_of(self.in_flight_codes@);
        let mut i: usize = 0;
        while i < self.in_flight_codes.len()
            invariant
                i <= self.in_flight_codes@.len(),
                sf == in_flight_of(self.in_flight_codes@),
                forall|j: int| 0 <= j < i ==> sf[j] != code@,
            decreases self.in_flight_codes@.len() - i,
        {
            if str_eq(self.in_flight_codes[i].as_str(), code) {
                proof {
                    assert(sf[i as int] == code@);
                }
                return true;
            }
            i += 1;
        }
        proof {
            assert(forall|j: int| 0 <= j < sf.len() ==> sf[j] != code@);
        }
        false
    }

    /// Begin one fetch cycle: reject the request when a fetch for the same
    /// code is already in flight; otherwise mark it in flight and, for the
    /// selected restaurant with nothing displayed yet, enter `Loading`.
    /// The caller dispatches the actual fetch only when this returns true.
    pub fn start_refresh_for_code(
        &mut self,
        code: &str,
        mark_loading_when_empty: bool,
        now_ms: i64,
    ) -> (r: bool)
        requires
            old(self).wf(),
        ensures
            final(self).wf(),
            r == !in_flight_of(old(self).in_flight_codes@).contains(code@),
            !r ==> *final(self) == *old(self),
            r ==> in_flight_of(final(self).in_flight_codes@) == in_flight_of(
                old(self).in_flight_codes@,
            ).push(code@),
            r ==> ({
                let is_current = old(self).state.settings.restaurant_code@ == code@;
                let mark = is_current && mark_loading_when_empty && old(
                    self,
                ).state.raw_payload@.len() == 0;
                &&& final(self).state.status == if mark {
                    FetchStatus::Loading
                } else {
                    old(self).state.status
                }
                &&& final(self).state.loading_started_epoch_ms == if mark {
                    now_ms
                } else {
                    old(self).state.loading_started_epoch_ms
                }
                &&& final(self).state.error_message@ == if is_current {
                    Seq::<char>::empty()
                } else {
                    old(self).state.error_message@
                }
                &&& final(self).state.settings == old(self).state.settings
                &&& final(self).state.today_menu == old(self).state.today_menu
                &&& final(self).state.raw_payload == old(self).state.raw_payload
                &&& final(self).state.payload_date == old(self).state.payload_date
                &&& final(self).state.provider == old(self).state.provider
                &&& final(self).state.stale_date == old(self).state.stale_date
                &&& final(self).state.stale_network_error == old(self).state.stale_network_error
                &&& final(self).state.restaurant_name == old(self).state.restaurant_name
                &&& final(self).state.restaurant_url == old(self).state.restaurant_url
                &&& final(self).retry_step == old(self).retry_step
                &&& final(self).last_prefetch_ms == old(self).last_prefetch_ms
                &&& final(self).cache == old(self).cache
            }),
    {
        if self.in_flight_contains(code) {
            return false;
        }
        let ghost pre = self.in_flight_codes@;
        self.in_flight_codes.push(String::from_str(code));
        proof {
            assert(in_flight_of(self.in_flight_codes@) =~= in_flight_of(pre).push(code@));
        }
        let is_current = str_eq(self.state.settings.restaurant_code.as_str(), code);
        if is_current {
            if mark_loading_when_empty && self.state.raw_payload.as_str().unicode_len() == 0 {
                assert(self.state.raw_payload@.len() == 0);
                self.state.status = FetchStatus::Loading;
                self.state.loading_started_epoch_ms = now_ms;
            } else {
                assert(!(mark_loading_when_empty && self.state.raw_payload@.len() == 0));
            }
            self.state.error_message = String::new();
        }
        true
    }

    /// The backoff delay before the next retry, advancing the step:
    /// 10 s, 30 s, 60 s, then 300 s repeating.
    pub fn next_retry_delay_ms(&mut self) -> (r: u32)
        ensures
            r == spec_retry_delay_ms(old(self).retry_step as int),
            final(self).retry_step == if old(self).retry_step < usize::MAX {
                old(self).retry_step + 1
            } else {
                old(self).retry_step as int
            },
            final(self).state == old(self).state,
            final(self).in_flight_codes == old(self).in_flight_codes,
            final(self).last_prefetch_ms == old(self).last_prefetch_ms,
            final(self).cache == old(self).cache,
    {
        let delay: u32 = if self.retry_step == 0 {
            10_000
        } else if self.retry_step == 1 {
            30_000
        } else if self.retry_step == 2 {
            60_000
        } else {
            300_000
        };
        if self.retry_step < usize::MAX {
            self.retry_step = self.retry_step + 1;
        }
        delay
    }

    /// Forget accumulated failures: the next delay starts over at 10 s.
    pub fn reset_retry_backoff(&mut self)
        ensures
            final(self).retry_step == 0,
            final(self).state == old(self).state,
            final(self).in_flight_codes == old(self).in_flight_codes,
            final(self).last_prefetch_ms == old(self).last_prefetch_ms,
            final(self).cache == old(self).cache,
    {
        self.retry_step = 0;
    }

    /// Re-check the held payload date against today: a mismatch marks the
    /// display stale; the result says whether an unprompted retry is due.
    pub fn check_stale_date(&mut self, today: &str) -> (r: bool)
        ensures
            final(self).state.stale_date == (old(self).state.payload_date@.len() > 0 && old(
                self,
            ).state.payload_date@ != today@),
            r == final(self).state.stale_date,
            final(self).state.payload_date == old(self).state.payload_date,
            final(self).state.settings == old(self).state.settings,
            final(self).state.status == old(self).state.status,
            final(self).state.today_menu == old(self).state.today_menu,
            final(self).state.raw_payload == old(self).state.raw_payload,
            final(self).state.error_message == old(self).state.error_message,
            final(self).state.stale_network_error == old(self).state.stale_network_error,
            final(self).state.loading_started_epoch_ms == old(
                self,
            ).state.loading_started_epoch_ms,
            final(self).state.restaurant_name == old(self).state.restaurant_name,
            final(self).state.restaurant_url == old(self).state.restaurant_url,
            final(self).state.provider == old(self).state.provider,
            final(self).in_flight_codes == old(self).in_flight_codes,
            final(self).retry_step == old(self).retry_step,
            final(self).last_prefetch_ms == old(self).last_prefetch_ms,
            final(self).cache == old(self).cache,
    {
        if self.state.payload_date.as_str().unicode_len() > 0 {
            assert(self.state.payload_date@.len() > 0);
            let stale = !str_eq(self.state.payload_date.as_str(), today);
            self.state.stale_date = stale;
            stale
        } else {
            assert(self.state.payload_date@.len() == 0);
            self.state.stale_date = false;
            false
        }
    }
}

/// The backoff delay for a given consecutive-failure step.
pub open spec fn spec_retry_delay_ms(step: int) -> u32 {
    if step == 0 {
        10_000
    } else if step == 1 {
        30_000
    } else if step == 2 {
        60_000
    } else {
        300_000
    }
}

/// Law: from a fresh backoff, the delays run 10 s, 30 s, 60 s, then 300 s
/// for every later step; a reset starts the run over.
pub proof fn lemma_retry_backoff_schedule(step: int)
    ensures
        spec_retry_delay_ms(0) == 10_000,
        spec_retry_delay_ms(1) == 30_000,
        spec_retry_delay_ms(2) == 60_000,
        step >= 3 ==> spec_retry_delay_ms(step) == 300_000,
{
}

/// Law: of two fetch requests for one code before either completes, only
/// the first is dispatched: after a first accepted request, a second
/// request for the same code is rejected and changes nothing.
pub proof fn lemma_inflight_dedup(before: Seq<Seq<char>>, code: Seq<char>)
    ensures
        before.push(code).contains(code),
{
    assert(before.push(code)[before.len() as int] == code);
}

/// The fixed message fragments that mark a transport-level failure.
pub open spec fn spec_network_tokens() -> Seq<Seq<char>> {
    seq![
        "timed out"@,
        "timeout"@,
        "dns"@,
        "network"@,
        "connection"@,
        "connect"@,
        "host"@,
        "resolve"@,
        "name or service not known"@,
        "temporary failure"@,
        "connection reset"@,
        "connection refused"@,
        "tls"@,
        "certificate"@,
        "os error"@,
    ]
}

/// An error message reads as a network problem when its ASCII-lowered
/// text contains one of the fixed fragments.
pub open spec fn spec_is_network_error(message: Seq<char>) -> bool {
    exists|k: int|
        0 <= k < spec_network_tokens().len() && contains_sub(
            ascii_lower_seq(message),
            #[trigger] spec_network_tokens()[k],
        )
}

/// Classify an error message as probably a network failure.
pub fn is_probable_network_error(message: &str) -> (r: bool)
    ensures
        r == spec_is_network_error(message@),
{
    let mc = str_to_chars(message);
    let lower = ascii_lower_chars(&mc);
    let mut tokens: Vec<Vec<char>> = Vec::new();
    tokens.push(str_to_chars("timed out"));
    tokens.push(str_to_chars("timeout"));
    tokens.push(str_to_chars("dns"));
    tokens.push(str_to_chars("network"));
    tokens.push(str_to_chars("connection"));
    tokens.push(str_to_chars("connect"));
    tokens.push(str_to_chars("host"));
    tokens.push(str_to_chars("resolve"));
    tokens.push(str_to_chars("name or service not known"));
    tokens.push(str_to_chars("temporary failure"));
    tokens.push(str_to_chars("connection reset"));
    tokens.push(str_to_chars("connection refused"));
    tokens.push(str_to_chars("tls"));
    tokens.push(str_to_chars("certificate"));
    tokens.push(str_to_chars("os error"));
    proof {
        assert(tokens@.map_values(|p: Vec<char>| p@) =~= spec_network_tokens());
    }
    let ghost stoks = tokens@.map_values(|p: Vec<char>| p@);
    let mut k: usize = 0;
    while k < tokens.len()
        invariant
            k <= tokens@.len(),
            lower@ == ascii_lower_seq(message@),
            stoks == tokens@.map_values(|p: Vec<char>| p@),
            stoks == spec_network_tokens(),
            forall|j: int| 0 <= j < k ==> !contains_sub(ascii_lower_seq(message@), stoks[j]),
        decreases tokens@.len() - k,
    {
        proof {
            assert(tokens@[k as int]@ == stoks[k as int]);
        }
        if check_contains_sub(&lower, &tokens[k]) {
            return true;
        }
        k += 1;
    }
    false
}

/// `s` with the first occurrence of `x` removed.
pub open spec fn spec_remove_first(s: Seq<Seq<char>>, x: Seq<char>) -> Seq<Seq<char>>
    decreases s.len(),
{
    if s.len() == 0 {
        s
    } else if s[0] == x {
        s.drop_first()
    } else {
        seq![s[0]] + spec_remove_first(s.drop_first(), x)
    }
}

proof fn lemma_remove_first_at(s: Seq<Seq<char>>, x: Seq<char>, i: int)
    requires
        0 <= i < s.len(),
        s[i] == x,
        forall|j: int| 0 <= j < i ==> s[j] != x,
    ensures
        spec_remove_first(s, x) == s.take(i) + s.skip(i + 1),
    decreases i,
{
    if i == 0 {
        assert(spec_remove_first(s, x) =~= s.take(0) + s.skip(1));
    } else {
        let rest = s.drop_first();
        assert forall|j: int| 0 <= j < i - 1 implies rest[j] != x by {
            assert(rest[j] == s[j + 1]);
        }
        assert(rest[i - 1] == s[i]);
        lemma_remove_first_at(rest, x, i - 1);
        assert(seq![s[0]] + (rest.take(i - 1) + rest.skip(i)) =~= s.take(i) + s.skip(i + 1));
    }
}

proof fn lemma_remove_first_absent(s: Seq<Seq<char>>, x: Seq<char>)
    requires
        forall|j: int| 0 <= j < s.len() ==> s[j] != x,
    ensures
        spec_remove_first(s, x) == s,
    decreases s.len(),
{
    if s.len() > 0 {
        let rest = s.drop_first();
        assert forall|j: int| 0 <= j < rest.len() implies rest[j] != x by {
            assert(rest[j] == s[j + 1]);
        }
        lemma_remove_first_absent(rest, x);
        assert(seq![s[0]] + rest =~= s);
    }
}

impl App {
    fn remove_in_flight(&mut self, code: &str)
        ensures
            in_flight_of(final(self).in_flight_codes@) == spec_remove_first(
                in_flight_of(old(self).in_flight_codes@),
                code@,
            ),
            final(self).state == old(self).state,
            final(self).retry_step == old(self).retry_step,
            final(self).last_prefetch_ms == old(self).last_prefetch_ms,
            final(self).cache == old(self).cache,
    {
        let ghost sf = in_flight_of(self.in_flight_codes@);
        let mut i: usize = 0;
        while i < self.in_flight_codes.len()
            invariant
                i <= self.in_flight_codes@.len(),
                sf == in_flight_of(self.in_flight_codes@),
                self.in_flight_codes@ == old(self).in_flight_codes@,
                self.state == old(self).state,
                self.retry_step == old(self).retry_step,
                self.last_prefetch_ms == old(self).last_prefetch_ms,
                self.cache == old(self).cache,
                forall|j: int| 0 <= j < i ==> sf[j] != code@,
            decreases self.in_flight_codes@.len() - i,
        {
            if str_eq(self.in_flight_codes[i].as_str(), code) {
                proof {
                    assert(sf[i as int] == code@);
                    lemma_remove_first_at(sf, code@, i as int);
                }
                let ghost pre = self.in_flight_codes@;
                self.in_flight_codes.remove(i);
                proof {
                    assert(in_flight_of(self.in_flight_codes@) =~= sf.take(i as int) + sf.skip(
                        i + 1,
                    ));
                }
                return ;
            }
            i += 1;
        }
        proof {
            lemma_remove_first_absent(sf, code@);
        }
    }

    /// Handle one delivered fetch result. A result for a restaurant no
    /// longer selected only feeds the cache (on success) and touches no
    /// display state. For the selected restaurant, success replaces the
    /// display and the cache; failure keeps a previously shown payload as
    /// `Stale` (classifying the message as network trouble or not) and is
    /// `Error` otherwise.
    pub fn apply_fetch_message(&mut self, message: FetchMessage, now_ms: i64, today: &str) -> (r:
        FetchApplyOutcome)
        requires
            old(self).wf(),
        ensures
            final(self).wf(),
            in_flight_of(final(self).in_flight_codes@) == spec_remove_first(
                in_flight_of(old(self).in_flight_codes@),
                message.requested_code@,
            ),
            final(self).retry_step == old(self).retry_step,
            final(self).last_prefetch_ms == old(self).last_prefetch_ms,
            ({
                let background = message.requested_code@ != old(
                    self,
                ).state.settings.restaurant_code@;
                if background {
                    &&& final(self).state == old(self).state
                    &&& if message.result.ok {
                        r == FetchApplyOutcome::BackgroundSuccess && final(self).cache.view_map()
                            == old(self).cache.view_map().insert(
                            (
                                message.result.provider,
                                message.requested_code@,
                                message.requested_language@,
                            ),
                            (message.result.raw_json@, now_ms),
                        )
                    } else {
                        r == FetchApplyOutcome::BackgroundFailure && final(self).cache == old(
                            self,
                        ).cache
                    }
                } else if message.result.ok {
                    &&& r == FetchApplyOutcome::CurrentSuccess
                    &&& final(self).state.status == FetchStatus::Okay
                    &&& final(self).state.loading_started_epoch_ms == 0
                    &&& final(self).state.error_message@ == Seq::<char>::empty()
                    &&& final(self).state.stale_network_error == false
                    &&& final(self).state.raw_payload@ == message.result.raw_json@
                    &&& final(self).state.restaurant_name@ == message.result.restaurant_name@
                    &&& final(self).state.restaurant_url@ == message.result.restaurant_url@
                    &&& final(self).state.today_menu == message.result.today_menu
                    &&& final(self).state.provider == message.result.provider
                    &&& final(self).state.payload_date@ == message.result.payload_date@
                    &&& final(self).state.stale_date == (message.result.payload_date@.len() > 0
                        && message.result.payload_date@ != today@)
                    &&& final(self).state.settings.last_updated_epoch_ms == now_ms
                    &&& final(self).state.settings.restaurant_code == old(
                        self,
                    ).state.settings.restaurant_code
                    &&& final(self).state.settings.language == old(self).state.settings.language
                    &&& final(self).cache.view_map() == old(self).cache.view_map().insert(
                        (
                            message.result.provider,
                            message.requested_code@,
                            message.requested_language@,
                        ),
                        (message.result.raw_json@, now_ms),
                    )
                } else {
                    &&& r == FetchApplyOutcome::CurrentFailure
                    &&& final(self).cache == old(self).cache
                    &&& final(self).state.loading_started_epoch_ms == 0
                    &&& final(self).state.error_message@ == message.result.error_message@
                    &&& if old(self).state.raw_payload@.len() > 0 {
                        final(self).state.status == FetchStatus::Stale
                            && final(self).state.stale_network_error == spec_is_network_error(
                            message.result.error_message@,
                        )
                    } else {
                        final(self).state.status == FetchStatus::Error
                            && final(self).state.stale_network_error == false
                    }
                    &&& final(self).state.raw_payload == old(self).state.raw_payload
                    &&& final(self).state.today_menu == old(self).state.today_menu
                    &&& final(self).state.payload_date == old(self).state.payload_date
                    &&& final(self).state.settings == old(self).state.settings
                }
            }),
    {
        let FetchMessage { requested_code, requested_language, result } = message;
        self.remove_in_flight(requested_code.as_str());
        let is_current = str_eq(
            requested_code.as_str(),
            self.state.settings.restaurant_code.as_str(),
        );
        if !is_current {
            if result.ok {
                self.cache.write(
                    result.provider,
                    requested_code.as_str(),
                    requested_language.as_str(),
                    result.raw_json.as_str(),
                    now_ms,
                );
                FetchApplyOutcome::BackgroundSuccess
            } else {
                FetchApplyOutcome::BackgroundFailure
            }
        } else if result.ok {
            self.state.status = FetchStatus::Okay;
            self.state.loading_started_epoch_ms = 0;
            self.state.error_message = String::new();
            self.state.stale_network_error = false;
            self.state.raw_payload = String::from_str(result.raw_json.as_str());
            self.state.restaurant_name = result.restaurant_name;
            self.state.restaurant_url = result.restaurant_url;
            self.state.today_menu = result.today_menu;
            self.state.provider = result.provider;
            self.state.payload_date = result.payload_date;
            if self.state.payload_date.as_str().unicode_len() > 0 {
                assert(self.state.payload_date@.len() > 0);
                let stale = !str_eq(self.state.payload_date.as_str(), today);
                self.state.stale_date = stale;
            } else {
                assert(self.state.payload_date@.len() == 0);
                self.state.stale_date = false;
            }
            self.state.settings.last_updated_epoch_ms = now_ms;
            self.cache.write(
                self.state.provider,
                requested_code.as_str(),
                requested_language.as_str(),
                result.raw_json.as_str(),
                now_ms,
            );
            FetchApplyOutcome::CurrentSuccess
        } else {
            if self.state.raw_payload.as_str().unicode_len() > 0 {
                assert(self.state.raw_payload@.len() > 0);
                self.state.status = FetchStatus::Stale;
                self.state.loading_started_epoch_ms = 0;
                self.state.stale_network_error = is_probable_network_error(
                    result.error_message.as_str(),
                );
            } else {
                assert(self.state.raw_payload@.len() == 0);
                self.state.status = FetchStatus::Error;
                self.state.loading_started_epoch_ms = 0;
                self.state.stale_network_error = false;
            }
            self.state.error_message = result.error_message;
            FetchApplyOutcome::CurrentFailure
        }
    }
}

/// Relies on the `time` crate (`OffsetDateTime::from_unix_timestamp`,
/// `UtcOffset::current_local_offset`): the local calendar date of an
/// epoch-milliseconds instant. The result depends on the machine's time
/// zone, so nothing is promised of it beyond the guard below.
#[verifier::external_body]
pub fn local_date_key_of_epoch_ms(ms: i64) -> (r: Option<String>)
    ensures
        ms <= 0 ==> r is None,
{
    if ms <= 0 {
        return None;
    }
    let secs = ms / 1000;
    let nanos = ((ms % 1000) * 1_000_000) as u32;
    let mut dt = time::OffsetDateTime::from_unix_timestamp(secs).ok()?;
    dt = dt.replace_nanosecond(nanos).ok()?;
    let offset = time::UtcOffset::current_local_offset().unwrap_or(time::UtcOffset::UTC);
    let local = dt.to_offset(offset);
    let date = local.date();
    Some(
        format!("{:04}-{:02}-{:02}", date.year(), date.month() as u8, date.day()),
    )
}

/// First catalog index whose code is `code`, or 0.
pub open spec fn spec_catalog_index(
    cat: Seq<crate::restaurant::RestaurantView>,
    code: Seq<char>,
) -> int
    decreases cat.len(),
{
    if cat.len() == 0 {
        0
    } else if cat[0].code == code {
        0
    } else {
        let r = spec_catalog_index(cat.drop_first(), code);
        if r < 0 || r + 1 >= cat.len() + 1 {
            0
        } else if exists|i: int| 0 <= i < cat.len() && (#[trigger] cat[i].code) == code {
            r + 1
        } else {
            0
        }
    }
}

/// `code` is the code of some catalog entry other than the selected one.
pub open spec fn code_in_catalog_except(
    code: Seq<char>,
    cat: Seq<crate::restaurant::RestaurantView>,
    current: Seq<char>,
) -> bool {
    exists|j: int|
        0 <= j < cat.len() && (#[trigger] cat[j]).code == code && cat[j].code != current
}

impl App {
    fn clear_display(&mut self)
        ensures
            final(self).state.raw_payload@ == Seq::<char>::empty(),
            final(self).state.today_menu is None,
            final(self).state.payload_date@ == Seq::<char>::empty(),
            final(self).state.stale_date == false,
            final(self).state.status == FetchStatus::Idle,
            final(self).state.loading_started_epoch_ms == 0,
            final(self).state.stale_network_error == false,
            final(self).state.settings == old(self).state.settings,
            final(self).state.provider == old(self).state.provider,
            final(self).state.restaurant_name == old(self).state.restaurant_name,
            final(self).state.restaurant_url == old(self).state.restaurant_url,
            final(self).state.error_message == old(self).state.error_message,
            final(self).in_flight_codes == old(self).in_flight_codes,
            final(self).retry_step == old(self).retry_step,
            final(self).last_prefetch_ms == old(self).last_prefetch_ms,
            final(self).cache == old(self).cache,
    {
        self.state.raw_payload = String::new();
        self.state.today_menu = None;
        self.state.payload_date = String::new();
        self.state.stale_date = false;
        self.state.status = FetchStatus::Idle;
        self.state.loading_started_epoch_ms = 0;
        self.state.stale_network_error = false;
    }

    /// Select a restaurant by code and clear the display back to idle.
    pub fn set_restaurant(&mut self, code: &str)
        requires
            old(self).wf(),
        ensures
            final(self).wf(),
            final(self).state.settings.restaurant_code@ == code@,
            final(self).state.settings.language == old(self).state.settings.language,
            final(self).state.provider == spec_restaurant_for_code(
                code@,
                old(self).state.settings.enable_antell_restaurants,
            ).provider,
            final(self).state.restaurant_url@ == match spec_restaurant_for_code(
                code@,
                old(self).state.settings.enable_antell_restaurants,
            ).url {
                Option::Some(u) => u,
                Option::None => Seq::<char>::empty(),
            },
            final(self).state.raw_payload@ == Seq::<char>::empty(),
            final(self).state.today_menu is None,
            final(self).state.payload_date@ == Seq::<char>::empty(),
            final(self).state.stale_date == false,
            final(self).state.status == FetchStatus::Idle,
            final(self).in_flight_codes == old(self).in_flight_codes,
            final(self).retry_step == old(self).retry_step,
            final(self).cache == old(self).cache,
    {
        self.state.settings.restaurant_code = String::from_str(code);
        let restaurant = restaurant_for_code(
            code,
            self.state.settings.enable_antell_restaurants,
        );
        self.state.provider = restaurant.provider;
        self.state.restaurant_url = match restaurant.url {
            Some(u) => String::from_str(u),
            None => String::new(),
        };
        self.clear_display();
    }

    /// Switch the display language and clear the display back to idle.
    pub fn set_language(&mut self, language: &str)
        requires
            old(self).wf(),
        ensures
            final(self).wf(),
            final(self).state.settings.language@ == language@,
            final(self).state.settings.restaurant_code == old(
                self,
            ).state.settings.restaurant_code,
            final(self).state.raw_payload@ == Seq::<char>::empty(),
            final(self).state.today_menu is None,
            final(self).state.payload_date@ == Seq::<char>::empty(),
            final(self).state.stale_date == false,
            final(self).state.status == FetchStatus::Idle,
            final(self).in_flight_codes == old(self).in_flight_codes,
            final(self).retry_step == old(self).retry_step,
            final(self).cache == old(self).cache,
    {
        self.state.settings.language = String::from_str(language);
        self.clear_display();
    }

    /// Step forward or backward through the catalog's cycle order.
    pub fn cycle_restaurant(&mut self, direction: i32)
        requires
            old(self).wf(),
            direction == 1 || direction == -1i32,
        ensures
            final(self).wf(),
            ({
                let cat = spec_catalog(old(self).state.settings.enable_antell_restaurants);
                let idx = spec_catalog_index(cat, old(self).state.settings.restaurant_code@);
                let n = if direction == 1 {
                    if idx + 1 >= cat.len() {
                        0
                    } else {
                        idx + 1
                    }
                } else {
                    if idx - 1 < 0 {
                        cat.len() - 1
                    } else {
                        idx - 1
                    }
                };
                &&& final(self).state.settings.restaurant_code@ == cat[n].code
                &&& final(self).state.provider == cat[n].provider
                &&& final(self).state.restaurant_url@ == match cat[n].url {
                    Option::Some(u) => u,
                    Option::None => Seq::<char>::empty(),
                }
            }),
            final(self).state.raw_payload@ == Seq::<char>::empty(),
            final(self).state.today_menu is None,
            final(self).state.payload_date@ == Seq::<char>::empty(),
            final(self).state.stale_date == false,
            final(self).state.status == FetchStatus::Idle,
            final(self).state.loading_started_epoch_ms == 0,
            final(self).state.stale_network_error == false,
            final(self).in_flight_codes == old(self).in_flight_codes,
            final(self).retry_step == old(self).retry_step,
            final(self).cache == old(self).cache,
    {
        let list = available_restaurants(self.state.settings.enable_antell_restaurants);
        let ghost cat = spec_catalog(self.state.settings.enable_antell_restaurants);
        let mut idx: usize = 0;
        let mut found = false;
        let mut i: usize = 0;
        while i < list.len() && !found
            invariant
                i <= list@.len(),
                list@.map_values(|x: Restaurant| x@) == cat,
                cat == spec_catalog(self.state.settings.enable_antell_restaurants),
                self.state.settings == old(self).state.settings,
                if found {
                    idx < list@.len() && spec_catalog_index(
                        cat,
                        self.state.settings.restaurant_code@,
                    ) == idx as int
                } else {
                    idx == 0 && forall|j: int|
                        0 <= j < i ==> (#[trigger] cat[j].code)
                            != self.state.settings.restaurant_code@
                },
            decreases list@.len() - i + (if found { 0int } else { 1int }),
        {
            if str_eq(list[i].code, self.state.settings.restaurant_code.as_str()) {
                proof {
                    assert(cat[i as int].code == self.state.settings.restaurant_code@);
                    lemma_catalog_index_at(cat, self.state.settings.restaurant_code@, i as int);
                }
                idx = i;
                found = true;
            } else {
                i += 1;
            }
        }
        proof {
            if !found {
                lemma_catalog_index_none(cat, self.state.settings.restaurant_code@);
            }
        }
        if list.len() == 0 {
            return ;
        }
        let n: usize = if direction == 1 {
            if idx + 1 >= list.len() {
                0
            } else {
                idx + 1
            }
        } else {
            if idx == 0 {
                list.len() - 1
            } else {
                idx - 1
            }
        };
        let chosen = list[n];
        proof {
            assert(chosen@ == cat[n as int]);
        }
        self.state.settings.restaurant_code = String::from_str(chosen.code);
        self.state.provider = chosen.provider;
        self.state.restaurant_url = match chosen.url {
            Some(u) => String::from_str(u),
            None => String::new(),
        };
        self.clear_display();
    }

    /// Whether a refresh is due on selection: the cache entry for the
    /// selected restaurant is missing, or older than the refresh interval.
    pub fn maybe_refresh_on_selection(&self, now_ms: i64) -> (r: bool)
        requires
            self.wf(),
        ensures
            ({
                let rest = spec_restaurant_for_code(
                    self.state.settings.restaurant_code@,
                    self.state.settings.enable_antell_restaurants,
                );
                let key = (rest.provider, rest.code, self.state.settings.language@);
                r == (self.state.settings.refresh_minutes != 0 && (
                !self.cache.view_map().contains_key(key) || now_ms - self.cache.view_map()[key].1
                    >= self.state.settings.refresh_minutes * 60_000))
            }),
    {
        if self.state.settings.refresh_minutes == 0 {
            return false;
        }
        let restaurant = restaurant_for_code(
            self.state.settings.restaurant_code.as_str(),
            self.state.settings.enable_antell_restaurants,
        );
        match self.cache.mtime_ms(
            restaurant.provider,
            restaurant.code,
            self.state.settings.language.as_str(),
        ) {
            None => true,
            Some(ts) => {
                (now_ms as i128) - (ts as i128) >= (self.state.settings.refresh_minutes as i128)
                    * 60_000
            },
        }
    }

    /// The rate-limited prefetch sweep: at most once per five minutes,
    /// every non-selected catalog restaurant whose cache entry is missing
    /// or whose stored date no longer reads as today is a candidate.
    /// Every candidate is a catalog code other than the selected one, and
    /// a restaurant with no cache entry is always among them.
    #[verifier::rlimit(60)]
    pub fn prefetch_candidates(&mut self, now_ms: i64, today: &str) -> (r: Vec<String>)
        requires
            old(self).wf(),
        ensures
            final(self).wf(),
            final(self).state == old(self).state,
            final(self).in_flight_codes == old(self).in_flight_codes,
            final(self).retry_step == old(self).retry_step,
            final(self).cache == old(self).cache,
            (now_ms as int) - (old(self).last_prefetch_ms as int) < 5 * 60_000 ==> r@.len() == 0
                && final(self).last_prefetch_ms == old(self).last_prefetch_ms,
            (now_ms as int) - (old(self).last_prefetch_ms as int) >= 5 * 60_000
                ==> final(self).last_prefetch_ms == now_ms && (forall|k: int|
                0 <= k < r@.len() ==> code_in_catalog_except(
                    (#[trigger] r@[k])@,
                    spec_catalog(old(self).state.settings.enable_antell_restaurants),
                    old(self).state.settings.restaurant_code@,
                )),
            (now_ms as int) - (old(self).last_prefetch_ms as int) >= 5 * 60_000 ==> (forall|j: int|
                (0 <= j < spec_catalog(old(self).state.settings.enable_antell_restaurants).len()
                    && (#[trigger] spec_catalog(
                    old(self).state.settings.enable_antell_restaurants,
                )[j]).code != old(self).state.settings.restaurant_code@ && !old(
                    self,
                ).cache.view_map().contains_key(
                    (
                        spec_catalog(old(self).state.settings.enable_antell_restaurants)[
                            j
                        ].provider,
                        spec_catalog(old(self).state.settings.enable_antell_restaurants)[j].code,
                        old(self).state.settings.language@,
                    ),
                )) ==> (exists|k: int|
                    0 <= k < r@.len() && (#[trigger] r@[k])@ == spec_catalog(
                        old(self).state.settings.enable_antell_restaurants,
                    )[j].code)),
    {
        if (now_ms as i128) - (self.last_prefetch_ms as i128) < 5 * 60_000 {
            let none: Vec<String> = Vec::new();
            return none;
        }
        self.last_prefetch_ms = now_ms;
        let list = available_restaurants(self.state.settings.enable_antell_restaurants);
        let ghost cat = spec_catalog(self.state.settings.enable_antell_restaurants);
        let mut out: Vec<String> = Vec::new();
        let mut i: usize = 0;
        while i < list.len()
            invariant
                i <= list@.len(),
                list@.map_values(|x: Restaurant| x@) == cat,
                cat == spec_catalog(self.state.settings.enable_antell_restaurants),
                self.wf(),
                self.state == old(self).state,
                self.in_flight_codes == old(self).in_flight_codes,
                self.retry_step == old(self).retry_step,
                self.cache == old(self).cache,
                self.last_prefetch_ms == now_ms,
                forall|k: int|
                    0 <= k < out@.len() ==> code_in_catalog_except(
                        (#[trigger] out@[k])@,
                        cat,
                        self.state.settings.restaurant_code@,
                    ),
                forall|j: int|
                    (0 <= j < i && (#[trigger] cat[j]).code
                        != self.state.settings.restaurant_code@
                        && !self.cache.view_map().contains_key(
                        (cat[j].provider, cat[j].code, self.state.settings.language@),
                    )) ==> (exists|k: int|
                        0 <= k < out@.len() && (#[trigger] out@[k])@ == cat[j].code),
            decreases list@.len() - i,
        {
            let restaurant = list[i];
            proof {
                assert(restaurant@ == cat[i as int]);
            }
            let ghost pre_out = out@;
            let mut missing = false;
            if !str_eq(restaurant.code, self.state.settings.restaurant_code.as_str()) {
                let stale_or_missing: bool = match self.cache.mtime_ms(
                    restaurant.provider,
                    restaurant.code,
                    self.state.settings.language.as_str(),
                ) {
                    None => {
                        missing = true;
                        true
                    },
                    Some(ts) => match local_date_key_of_epoch_ms(ts) {
                        Some(date) => !str_eq(date.as_str(), today),
                        None => true,
                    },
                };
                if stale_or_missing {
                    out.push(String::from_str(restaurant.code));
                    proof {
                        assert(out@[out@.len() - 1]@ == cat[i as int].code);
                        assert forall|k: int| 0 <= k < out@.len() implies code_in_catalog_except(
                            (#[trigger] out@[k])@,
                            cat,
                            self.state.settings.restaurant_code@,
                        ) by {
                            if k == out@.len() - 1 {
                                assert(out@[k]@ == cat[i as int].code);
                                assert(cat[i as int].code == out@[k]@ && cat[i as int].code
                                    != self.state.settings.restaurant_code@);
                            }
                        }
                    }
                }
            }
            proof {
                let lang = self.state.settings.language@;
                assert forall|j: int|
                    (0 <= j < i + 1 && (#[trigger] cat[j]).code
                        != self.state.settings.restaurant_code@
                        && !self.cache.view_map().contains_key(
                        (cat[j].provider, cat[j].code, lang),
                    )) implies (exists|k: int|
                    0 <= k < out@.len() && (#[trigger] out@[k])@ == cat[j].code) by {
                    if j < i {
                        let k0 = choose|k: int|
                            0 <= k < pre_out.len() && (#[trigger] pre_out[k])@ == cat[j].code;
                        assert(out@[k0]@ == cat[j].code);
                    } else {
                        assert(missing);
                        assert(out@[out@.len() - 1]@ == cat[i as int].code);
                    }
                }
            }
            i += 1;
        }
        out
    }
}

pub proof fn lemma_catalog_index_at(
    cat: Seq<crate::restaurant::RestaurantView>,
    code: Seq<char>,
    i: int,
)
    requires
        0 <= i < cat.len(),
        cat[i].code == code,
        forall|j: int| 0 <= j < i ==> (#[trigger] cat[j].code) != code,
    ensures
        spec_catalog_index(cat, code) == i,
    decreases i,
{
    if i == 0 {
    } else {
        let rest = cat.drop_first();
        assert forall|j: int| 0 <= j < i - 1 implies (#[trigger] rest[j].code) != code by {
            assert(rest[j] == cat[j + 1]);
        }
        assert(rest[i - 1] == cat[i]);
        lemma_catalog_index_at(rest, code, i - 1);
        assert(exists|k: int| 0 <= k < cat.len() && (#[trigger] cat[k].code) == code) by {
            assert(cat[i].code == code);
        }
    }
}

pub proof fn lemma_catalog_index_none(cat: Seq<crate::restaurant::RestaurantView>, code: Seq<char>)
    requires
        forall|j: int| 0 <= j < cat.len() ==> (#[trigger] cat[j].code) != code,
    ensures
        spec_catalog_index(cat, code) == 0,
    decreases cat.len(),
{
    if cat.len() > 0 {
        let rest = cat.drop_first();
        assert forall|j: int| 0 <= j < rest.len() implies (#[trigger] rest[j].code) != code by {
            assert(rest[j] == cat[j + 1]);
        }
        lemma_catalog_index_none(rest, code);
        if exists|i: int| 0 <= i < cat.len() && (#[trigger] cat[i].code) == code {
            let w = choose|i: int| 0 <= i < cat.len() && (#[trigger] cat[i].code) == code;
            assert(false);
        }
    }
}

impl App {
    /// Flip one display flag; nothing else changes.
    pub fn toggle_show_prices(&mut self)
        requires
            old(self).wf(),
        ensures
            final(self).wf(),
            final(self).state.settings.show_prices == !old(self).state.settings.show_prices,
            final(self).state.settings.restaurant_code == old(self).state.settings.restaurant_code,
            final(self).state.status == old(self).state.status,
            final(self).state.today_menu == old(self).state.today_menu,
            final(self).in_flight_codes == old(self).in_flight_codes,
            final(self).cache == old(self).cache,
    {
        self.state.settings.show_prices = !self.state.settings.show_prices;
    }

    pub fn toggle_show_allergens(&mut self)
        requires
            old(self).wf(),
        ensures
            final(self).wf(),
            final(self).state.settings.show_allergens == !old(self).state.settings.show_allergens,
            final(self).state.status == old(self).state.status,
            final(self).in_flight_codes == old(self).in_flight_codes,
            final(self).cache == old(self).cache,
    {
        self.state.settings.show_allergens = !self.state.settings.show_allergens;
    }

    pub fn toggle_highlight_gluten_free(&mut self)
        requires
            old(self).wf(),
        ensures
            final(self).wf(),
            final(self).state.settings.highlight_gluten_free == !old(
                self,
            ).state.settings.highlight_gluten_free,
            final(self).in_flight_codes == old(self).in_flight_codes,
            final(self).cache == old(self).cache,
    {
        self.state.settings.highlight_gluten_free = !self.state.settings.highlight_gluten_free;
    }

    pub fn toggle_highlight_veg(&mut self)
        requires
            old(self).wf(),
        ensures
            final(self).wf(),
            final(self).state.settings.highlight_veg == !old(self).state.settings.highlight_veg,
            final(self).in_flight_codes == old(self).in_flight_codes,
            final(self).cache == old(self).cache,
    {
        self.state.settings.highlight_veg = !self.state.settings.highlight_veg;
    }

    pub fn toggle_highlight_lactose_free(&mut self)
        requires
            old(self).wf(),
        ensures
            final(self).wf(),
            final(self).state.settings.highlight_lactose_free == !old(
                self,
            ).state.settings.highlight_lactose_free,
            final(self).in_flight_codes == old(self).in_flight_codes,
            final(self).cache == old(self).cache,
    {
        self.state.settings.highlight_lactose_free = !self.state.settings.highlight_lactose_free;
    }

    pub fn toggle_show_student_price(&mut self)
        requires
            old(self).wf(),
        ensures
            final(self).wf(),
            final(self).state.settings.show_student_price == !old(
                self,
            ).state.settings.show_student_price,
            final(self).in_flight_codes == old(self).in_flight_codes,
            final(self).cache == old(self).cache,
    {
        self.state.settings.show_student_price = !self.state.settings.show_student_price;
    }

    pub fn toggle_show_staff_price(&mut self)
        requires
            old(self).wf(),
        ensures
            final(self).wf(),
            final(self).state.settings.show_staff_price == !old(
                self,
            ).state.settings.show_staff_price,
            final(self).in_flight_codes == old(self).in_flight_codes,
            final(self).cache == old(self).cache,
    {
        self.state.settings.show_staff_price = !self.state.settings.show_staff_price;
    }

    pub fn toggle_show_guest_price(&mut self)
        requires
            old(self).wf(),
        ensures
            final(self).wf(),
            final(self).state.settings.show_guest_price == !old(
                self,
            ).state.settings.show_guest_price,
            final(self).in_flight_codes == old(self).in_flight_codes,
            final(self).cache == old(self).cache,
    {
        self.state.settings.show_guest_price = !self.state.settings.show_guest_price;
    }

    pub fn toggle_hide_expensive_student_meals(&mut self)
        requires
            old(self).wf(),
        ensures
            final(self).wf(),
            final(self).state.settings.hide_expensive_student_meals == !old(
                self,
            ).state.settings.hide_expensive_student_meals,
            final(self).in_flight_codes == old(self).in_flight_codes,
            final(self).cache == old(self).cache,
    {
        self.state.settings.hide_expensive_student_meals =
        !self.state.settings.hide_expensive_student_meals;
    }

    pub fn toggle_logging(&mut self)
        requires
            old(self).wf(),
        ensures
            final(self).wf(),
            final(self).state.settings.enable_logging == !old(self).state.settings.enable_logging,
            final(self).in_flight_codes == old(self).in_flight_codes,
            final(self).cache == old(self).cache,
    {
        self.state.settings.enable_logging = !self.state.settings.enable_logging;
    }

    /// Flip the optional restaurant group; when it goes off while one of
    /// its restaurants is selected, fall back to the default restaurant.
    pub fn toggle_enable_antell(&mut self)
        requires
            old(self).wf(),
        ensures
            final(self).wf(),
            final(self).state.settings.enable_antell_restaurants == !old(
                self,
            ).state.settings.enable_antell_restaurants,
            ({
                let enabled = !old(self).state.settings.enable_antell_restaurants;
                let code = if !enabled && spec_is_antell_code(
                    old(self).state.settings.restaurant_code@,
                ) {
                    spec_restaurant_for_code(old(self).state.settings.restaurant_code@, false).code
                } else {
                    old(self).state.settings.restaurant_code@
                };
                &&& final(self).state.settings.restaurant_code@ == (if !enabled
                    && spec_is_antell_code(old(self).state.settings.restaurant_code@) {
                    "0437"@
                } else {
                    old(self).state.settings.restaurant_code@
                })
                &&& final(self).state.provider == spec_restaurant_for_code(
                    final(self).state.settings.restaurant_code@,
                    enabled,
                ).provider
            }),
            final(self).state.raw_payload@ == Seq::<char>::empty(),
            final(self).state.today_menu is None,
            final(self).state.payload_date@ == Seq::<char>::empty(),
            final(self).state.status == FetchStatus::Idle,
            final(self).in_flight_codes == old(self).in_flight_codes,
            final(self).cache == old(self).cache,
    {
        let enabled = !self.state.settings.enable_antell_restaurants;
        self.state.settings.enable_antell_restaurants = enabled;
        if !enabled && is_antell_code(self.state.settings.restaurant_code.as_str()) {
            let fallback = restaurant_for_code("0437", false);
            self.state.settings.restaurant_code = String::from_str(fallback.code);
            proof {
                assert(fallback@ == spec_restaurant_for_code("0437"@, false));
                assert(fallback@.code == "0437"@) by {
                    assert(spec_catalog(false)[0].code == "0437"@);
                    assert(crate::restaurant::spec_lookup_in(spec_catalog(false), "0437"@)
                        == Some(spec_catalog(false)[0]));
                }
            }
        }
        let restaurant = restaurant_for_code(
            self.state.settings.restaurant_code.as_str(),
            self.state.settings.enable_antell_restaurants,
        );
        self.state.provider = restaurant.provider;
        self.state.restaurant_url = match restaurant.url {
            Some(u) => String::from_str(u),
            None => String::new(),
        };
        self.clear_display();
    }

    pub fn set_refresh_minutes(&mut self, minutes: u32)
        requires
            old(self).wf(),
        ensures
            final(self).wf(),
            final(self).state.settings.refresh_minutes == minutes,
            final(self).in_flight_codes == old(self).in_flight_codes,
            final(self).cache == old(self).cache,
    {
        self.state.settings.refresh_minutes = minutes;
    }

    pub fn set_theme(&mut self, theme: &str)
        requires
            old(self).wf(),
        ensures
            final(self).wf(),
            final(self).state.settings.theme@ == crate::settings::spec_normalize_theme(theme@),
            final(self).in_flight_codes == old(self).in_flight_codes,
            final(self).cache == old(self).cache,
    {
        self.state.settings.theme = crate::settings::normalize_theme(theme);
    }

    pub fn refresh_minutes(&self) -> (r: u32)
        ensures
            r == self.state.settings.refresh_minutes,
    {
        self.state.settings.refresh_minutes
    }

    pub fn restaurant_name(&self) -> (r: String)
        ensures
            r@ == self.state.restaurant_name@,
    {
        String::from_str(self.state.restaurant_name.as_str())
    }
}

/// How one parsed cached payload lands in the display state: the payload
/// replaces the display, the status follows the outcome's own flag, and
/// staleness is recomputed against today.
pub open spec fn spec_applied_cached(
    o: crate::model::FetchOutputView,
    today: Seq<char>,
    pre: AppState,
    post: AppState,
) -> bool {
    &&& post.raw_payload@ == o.raw_json
    &&& post.restaurant_name@ == o.restaurant_name
    &&& post.restaurant_url@ == o.restaurant_url
    &&& (match post.today_menu {
        Option::Some(m) => o.today_menu matches Option::Some(mv) && m@ == mv,
        Option::None => o.today_menu is None,
    })
    &&& post.provider == o.provider
    &&& post.payload_date@ == o.payload_date
    &&& post.stale_date == (o.payload_date.len() > 0 && o.payload_date != today)
    &&& post.status == if o.ok {
        FetchStatus::Okay
    } else {
        FetchStatus::Error
    }
    &&& post.loading_started_epoch_ms == 0
    &&& post.error_message@ == if o.ok {
        Seq::<char>::empty()
    } else {
        o.error_message
    }
    &&& post.stale_network_error == false
    &&& post.settings == pre.settings
}

impl App {
    fn apply_cached_result(&mut self, result: FetchOutput, today: &str)
        requires
            old(self).wf(),
        ensures
            final(self).wf(),
            spec_applied_cached(result@, today@, old(self).state, final(self).state),
            final(self).in_flight_codes == old(self).in_flight_codes,
            final(self).retry_step == old(self).retry_step,
            final(self).last_prefetch_ms == old(self).last_prefetch_ms,
            final(self).cache == old(self).cache,
    {
        self.state.raw_payload = result.raw_json;
        self.state.restaurant_name = result.restaurant_name;
        self.state.restaurant_url = result.restaurant_url;
        self.state.today_menu = result.today_menu;
        self.state.provider = result.provider;
        self.state.payload_date = result.payload_date;
        if self.state.payload_date.as_str().unicode_len() > 0 {
            assert(self.state.payload_date@.len() > 0);
            self.state.stale_date = !str_eq(self.state.payload_date.as_str(), today);
        } else {
            assert(self.state.payload_date@.len() == 0);
            self.state.stale_date = false;
        }
        if result.ok {
            self.state.status = FetchStatus::Okay;
            self.state.loading_started_epoch_ms = 0;
            self.state.error_message = String::new();
            self.state.stale_network_error = false;
        } else {
            self.state.status = FetchStatus::Error;
            self.state.loading_started_epoch_ms = 0;
            self.state.error_message = result.error_message;
            self.state.stale_network_error = false;
        }
    }

    /// Load the selected restaurant's cached payload into the display, when
    /// one is stored and re-parses: the decode errors of the JSON providers
    /// put the display into `Error`; a scraped page's payload date comes
    /// from the store time instead of the payload.
    pub fn load_cache_for_current(&mut self, today: &str) -> (r: bool)
        requires
            old(self).wf(),
        ensures
            final(self).wf(),
            final(self).in_flight_codes == old(self).in_flight_codes,
            final(self).retry_step == old(self).retry_step,
            final(self).last_prefetch_ms == old(self).last_prefetch_ms,
            final(self).cache == old(self).cache,
            ({
                let rest = spec_restaurant_for_code(
                    old(self).state.settings.restaurant_code@,
                    old(self).state.settings.enable_antell_restaurants,
                );
                let key = (rest.provider, rest.code, old(self).state.settings.language@);
                let error_state = !r && final(self).state.status == FetchStatus::Error
                    && final(self).state.loading_started_epoch_ms == 0
                    && final(self).state.stale_network_error == false
                    && final(self).state.settings == old(self).state.settings;
                if !old(self).cache.view_map().contains_key(key) {
                    !r && final(self).state == old(self).state
                } else {
                    let raw = old(self).cache.view_map()[key].0;
                    match rest.provider {
                        Provider::Compass => match crate::json::json_of(raw) {
                            Option::None => error_state,
                            Option::Some(v) => match crate::compass::spec_api_response_of(v) {
                                Option::None => error_state,
                                Option::Some(api) => r && spec_applied_cached(
                                    crate::compass::spec_parse_response(api, raw, today@),
                                    today@,
                                    old(self).state,
                                    final(self).state,
                                ),
                            },
                        },
                        Provider::CompassRss => r && spec_applied_cached(
                            crate::rss::spec_parse_rss(
                                raw,
                                rest,
                                old(self).state.settings.language@,
                                today@,
                            ),
                            today@,
                            old(self).state,
                            final(self).state,
                        ),
                        Provider::Antell => r && final(self).state.status == FetchStatus::Okay
                            && final(self).state.raw_payload@ == raw
                            && (match final(self).state.today_menu {
                            Option::Some(m) => m@ == crate::antell::spec_antell_menu(raw, today@),
                            Option::None => false,
                        }) && final(self).state.provider == Provider::Antell
                            && final(self).state.settings == old(self).state.settings,
                        Provider::HuomenJson => match crate::json::json_of(raw) {
                            Option::None => error_state,
                            Option::Some(v) => match crate::huomen::spec_parse_huomen_value(
                                v,
                                rest,
                                old(self).state.settings.language@,
                                today@,
                                raw,
                            ) {
                                Ok(o) => r && spec_applied_cached(
                                    o,
                                    today@,
                                    old(self).state,
                                    final(self).state,
                                ),
                                Err(e) => error_state && final(self).state.error_message@ == e,
                            },
                        },
                    }
                }
            }),
    {
        let restaurant = restaurant_for_code(
            self.state.settings.restaurant_code.as_str(),
            self.state.settings.enable_antell_restaurants,
        );
        let is_antell = match restaurant.provider {
            Provider::Antell => true,
            _ => false,
        };
        let cached_date: Option<String> = if is_antell {
            match self.cache.mtime_ms(
                restaurant.provider,
                restaurant.code,
                self.state.settings.language.as_str(),
            ) {
                Some(ts) => local_date_key_of_epoch_ms(ts),
                None => None,
            }
        } else {
            None
        };
        let raw: String = match self.cache.read(
            restaurant.provider,
            restaurant.code,
            self.state.settings.language.as_str(),
        ) {
            Some(p) => String::from_str(p.as_str()),
            None => {
                return false;
            },
        };
        match crate::fetch::parse_cached_payload(
            raw.as_str(),
            restaurant.provider,
            &restaurant,
            self.state.settings.language.as_str(),
            today,
        ) {
            Ok(result) => {
                let mut result = result;
                match cached_date {
                    Some(date_key) => {
                        result.payload_date = date_key;
                    },
                    None => {},
                }
                self.apply_cached_result(result, today);
                true
            },
            Err(err) => {
                self.state.status = FetchStatus::Error;
                self.state.loading_started_epoch_ms = 0;
                self.state.error_message = err;
                self.state.stale_network_error = false;
                false
            },
        }
    }
}

} // verus!
