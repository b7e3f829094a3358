//! The updates of the agent itself: whether they are set up, what is known of them, and
//! how a check and an installation change that.
use crate::naming::{setting, setting_of};
use crate::outside::{parse_url, parsed_url};
use crate::task::{copy_option, Progress};
use crate::text::{blank, is_blank, str_option, text_option, trimmed};
use vstd::prelude::*;
use vstd::string::*;

verus! {

/// Updates are set up where both the endpoint and the public key are given.
pub open spec fn is_configured(endpoint: Option<Seq<char>>, pubkey: Option<Seq<char>>) -> bool {
    &&& endpoint matches Some(value) && !is_blank(value)
    &&& pubkey matches Some(value) && !is_blank(value)
}

pub fn updater_configured(endpoint: Option<&str>, pubkey: Option<&str>) -> (r: bool)
    ensures
        r == is_configured(str_option(endpoint), str_option(pubkey)),
{
    match (endpoint, pubkey) {
        (Some(endpoint), Some(pubkey)) => !blank(endpoint) && !blank(pubkey),
        _ => false,
    }
}

/// What is shown of the updates.
#[derive(Debug, PartialEq, Eq)]
pub struct UpdaterSnapshot {
    pub configured: bool,
    pub checking: bool,
    pub installing: bool,
    pub available: bool,
    pub current_version: String,
    pub latest_version: Option<String>,
    pub progress: Progress,
    pub downloaded_bytes: u64,
    pub download_total_bytes: Option<u64>,
    pub notes: Option<String>,
    pub endpoint: Option<String>,
    pub last_error: Option<String>,
    pub last_checked_at: Option<String>,
}

#[verifier::ext_equal]
pub struct UpdaterView {
    pub configured: bool,
    pub checking: bool,
    pub installing: bool,
    pub available: bool,
    pub current_version: Seq<char>,
    pub latest_version: Option<Seq<char>>,
    pub progress: Progress,
    pub downloaded_bytes: u64,
    pub download_total_bytes: Option<u64>,
    pub notes: Option<Seq<char>>,
    pub endpoint: Option<Seq<char>>,
    pub last_error: Option<Seq<char>>,
    pub last_checked_at: Option<Seq<char>>,
}

impl View for UpdaterSnapshot {
    type V = UpdaterView;

    open spec fn view(&self) -> UpdaterView {
        UpdaterView {
            configured: self.configured,
            checking: self.checking,
            installing: self.installing,
            available: self.available,
            current_version: self.current_version@,
            latest_version: text_option(self.latest_version),
            progress: self.progress,
            downloaded_bytes: self.downloaded_bytes,
            download_total_bytes: self.download_total_bytes,
            notes: text_option(self.notes),
            endpoint: text_option(self.endpoint),
            last_error: text_option(self.last_error),
            last_checked_at: text_option(self.last_checked_at),
        }
    }
}

impl Clone for UpdaterSnapshot {
    fn clone(&self) -> (r: Self)
        ensures
            r@ == self@,
    {
        UpdaterSnapshot {
            configured: self.configured,
            checking: self.checking,
            installing: self.installing,
            available: self.available,
            current_version: self.current_version.clone(),
            latest_version: copy_option(&self.latest_version),
            progress: self.progress,
            downloaded_bytes: self.downloaded_bytes,
            download_total_bytes: self.download_total_bytes,
            notes: copy_option(&self.notes),
            endpoint: copy_option(&self.endpoint),
            last_error: copy_option(&self.last_error),
            last_checked_at: copy_option(&self.last_checked_at),
        }
    }
}

/// What is shown before anything has happened.
pub open spec fn fresh_updater(
    current_version: Seq<char>,
    endpoint: Option<Seq<char>>,
    pubkey: Option<Seq<char>>,
) -> UpdaterView {
    UpdaterView {
        configured: is_configured(endpoint, pubkey),
        checking: false,
        installing: false,
        available: false,
        current_version,
        latest_version: None,
        progress: Progress::Fixed(0),
        downloaded_bytes: 0,
        download_total_bytes: None,
        notes: None,
        endpoint,
        last_error: None,
        last_checked_at: None,
    }
}

pub fn default_updater_snapshot(
    current_version: &str,
    endpoint: Option<&str>,
    pubkey: Option<&str>,
) -> (snapshot: UpdaterSnapshot)
    ensures
        snapshot@ == fresh_updater(current_version@, str_option(endpoint), str_option(pubkey)),
{
    UpdaterSnapshot {
        configured: updater_configured(endpoint, pubkey),
        checking: false,
        installing: false,
        available: false,
        current_version: current_version.to_owned(),
        latest_version: None,
        progress: Progress::Fixed(0),
        downloaded_bytes: 0,
        download_total_bytes: None,
        notes: None,
        endpoint: match endpoint {
            Some(value) => Some(value.to_owned()),
            None => None,
        },
        last_error: None,
        last_checked_at: None,
    }
}

/// Where updates come from, and the key that they are signed with.
#[derive(Debug, PartialEq, Eq)]
pub struct UpdaterSettings {
    pub endpoint: String,
    pub pubkey: String,
}

#[verifier::ext_equal]
pub struct SettingsView {
    pub endpoint: Seq<char>,
    pub pubkey: Seq<char>,
}

impl View for UpdaterSettings {
    type V = SettingsView;

    open spec fn view(&self) -> SettingsView {
        SettingsView { endpoint: self.endpoint@, pubkey: self.pubkey@ }
    }
}

pub open spec fn settings_result(r: Result<UpdaterSettings, String>) -> Result<
    SettingsView,
    Seq<char>,
> {
    match r {
        Ok(settings) => Ok(settings@),
        Err(error) => Err(error@),
    }
}

/// The settings, where the endpoint is a URL; `url` is what the endpoint is parsed to.
pub open spec fn settings_with(pubkey: Seq<char>, url: Result<Seq<char>, Seq<char>>) -> Result<
    SettingsView,
    Seq<char>,
> {
    match url {
        Ok(endpoint) => Ok(SettingsView { endpoint, pubkey }),
        Err(error) => Err("解析自动更新端点失败："@ + error),
    }
}

pub fn check_settings(pubkey: &str, url: Result<String, String>) -> (r: Result<
    UpdaterSettings,
    String,
>)
    ensures
        settings_result(r) == settings_with(
            pubkey@,
            match url {
                Ok(endpoint) => Ok(endpoint@),
                Err(error) => Err(error@),
            },
        ),
{
    match url {
        Ok(endpoint) => Ok(UpdaterSettings { endpoint, pubkey: pubkey.to_owned() }),
        Err(error) => Err("解析自动更新端点失败：".to_owned().concat(error.as_str())),
    }
}

/// The settings for a check, or what is wrong with them.
pub open spec fn settings_for(endpoint: Option<Seq<char>>, pubkey: Option<Seq<char>>) -> Result<
    SettingsView,
    Seq<char>,
> {
    match setting(endpoint) {
        Some(address) => match setting(pubkey) {
            Some(key) => settings_with(key, parsed_url(address)),
            None => Err("当前构建未配置自动更新公钥"@),
        },
        None => Err("当前构建未配置自动更新端点"@),
    }
}

pub fn build_updater(endpoint: Option<&str>, pubkey: Option<&str>) -> (r: Result<
    UpdaterSettings,
    String,
>)
    ensures
        settings_result(r) == settings_for(str_option(endpoint), str_option(pubkey)),
{
    match setting_of(endpoint) {
        Some(address) => match setting_of(pubkey) {
            Some(key) => check_settings(key, parse_url(address)),
            None => Err("当前构建未配置自动更新公钥".to_owned()),
        },
        None => Err("当前构建未配置自动更新端点".to_owned()),
    }
}

/// What a check has brought.
#[derive(Debug, PartialEq, Eq)]
pub enum CheckOutcome<U> {
    /// The settings are wrong; the message says how.
    BadSettings(String),
    EndpointsRefused(String),
    NotBuilt(String),
    Failed(String),
    UpToDate,
    Found { update: U, version: String, notes: Option<String> },
}

/// What a check has brought, or the message of its failure.
pub open spec fn check_error<U>(outcome: CheckOutcome<U>) -> Option<Seq<char>> {
    match outcome {
        CheckOutcome::BadSettings(message) => Some(message@),
        CheckOutcome::EndpointsRefused(error) => Some("配置自动更新端点失败："@ + error@),
        CheckOutcome::NotBuilt(error) => Some("初始化自动更新器失败："@ + error@),
        CheckOutcome::Failed(error) => Some("检查更新失败："@ + error@),
        CheckOutcome::UpToDate => None,
        CheckOutcome::Found { .. } => None,
    }
}

/// The updates as the agent keeps them: what is shown, and the update that a check has
/// found.
#[derive(Debug, PartialEq, Eq)]
pub struct UpdaterRuntimeState<U> {
    pub pending_update: Option<U>,
    pub snapshot: UpdaterSnapshot,
}

#[verifier::ext_equal]
pub struct RuntimeView<U> {
    pub pending_update: Option<U>,
    pub snapshot: UpdaterView,
}

impl<U> View for UpdaterRuntimeState<U> {
    type V = RuntimeView<U>;

    open spec fn view(&self) -> RuntimeView<U> {
        RuntimeView { pending_update: self.pending_update, snapshot: self.snapshot@ }
    }
}

/// The state before anything has happened.
pub open spec fn fresh_runtime<U>(
    current_version: Seq<char>,
    endpoint: Option<Seq<char>>,
    pubkey: Option<Seq<char>>,
) -> RuntimeView<U> {
    RuntimeView {
        pending_update: None,
        snapshot: fresh_updater(current_version, endpoint, pubkey),
    }
}

/// A check has begun.
pub open spec fn check_begun<U>(state: RuntimeView<U>) -> RuntimeView<U> {
    RuntimeView {
        snapshot: UpdaterView {
            checking: true,
            last_error: None,
            progress: Progress::Fixed(0),
            downloaded_bytes: 0,
            download_total_bytes: None,
            ..state.snapshot
        },
        ..state
    }
}

/// A check has ended. The notes of an update that was found before stay where the check
/// has failed.
pub open spec fn check_ended<U>(
    state: RuntimeView<U>,
    outcome: CheckOutcome<U>,
    now: Seq<char>,
) -> RuntimeView<U> {
    let done = UpdaterView { checking: false, last_checked_at: Some(now), ..state.snapshot };
    match outcome {
        CheckOutcome::Found { update, version, notes } => RuntimeView {
            pending_update: Some(update),
            snapshot: UpdaterView {
                available: true,
                latest_version: Some(version@),
                notes: text_option(notes),
                last_error: None,
                ..done
            },
        },
        CheckOutcome::UpToDate => RuntimeView {
            pending_update: None,
            snapshot: UpdaterView {
                available: false,
                latest_version: None,
                notes: None,
                last_error: None,
                ..done
            },
        },
        _ => RuntimeView {
            pending_update: None,
            snapshot: UpdaterView {
                available: false,
                latest_version: None,
                last_error: check_error(outcome),
                ..done
            },
        },
    }
}

/// An installation has been asked for.
pub open spec fn install_requested<U>(state: RuntimeView<U>) -> RuntimeView<U> {
    RuntimeView {
        snapshot: UpdaterView {
            installing: true,
            checking: false,
            last_error: None,
            progress: Progress::Fixed(0),
            downloaded_bytes: 0,
            download_total_bytes: None,
            ..state.snapshot
        },
        ..state
    }
}

/// The installation begins, or is over at once where no update has been found.
pub open spec fn install_begun<U>(state: RuntimeView<U>) -> RuntimeView<U> {
    match state.pending_update {
        Some(_) => state,
        None => RuntimeView {
            snapshot: UpdaterView {
                installing: false,
                last_error: Some("当前没有待安装更新，请先检查更新"@),
                ..state.snapshot
            },
            ..state
        },
    }
}

/// Some of the update has been downloaded; a total of zero is as good as none.
pub open spec fn downloaded<U>(
    state: RuntimeView<U>,
    downloaded_bytes: u64,
    total: Option<u64>,
) -> RuntimeView<U> {
    RuntimeView {
        snapshot: UpdaterView {
            downloaded_bytes,
            download_total_bytes: match total {
                Some(bytes) if bytes > 0 => Some(bytes),
                _ => None,
            },
            progress: match total {
                Some(bytes) if bytes > 0 => Progress::Capped {
                    part: downloaded_bytes,
                    whole: bytes,
                    cap: 100,
                },
                _ => Progress::Fixed(0),
            },
            last_error: None,
            ..state.snapshot
        },
        ..state
    }
}

/// The installation has ended.
pub open spec fn install_ended<U>(
    state: RuntimeView<U>,
    error: Option<Seq<char>>,
) -> RuntimeView<U> {
    match error {
        None => RuntimeView {
            pending_update: None,
            snapshot: UpdaterView {
                installing: false,
                available: false,
                progress: Progress::Fixed(100),
                last_error: None,
                ..state.snapshot
            },
        },
        Some(e) => RuntimeView {
            snapshot: UpdaterView {
                installing: false,
                last_error: Some("安装更新失败："@ + e),
                ..state.snapshot
            },
            ..state
        },
    }
}

impl<U> UpdaterRuntimeState<U> {
    pub fn new(current_version: &str, endpoint: Option<&str>, pubkey: Option<&str>) -> (state: Self)
        ensures
            state@ == fresh_runtime::<U>(
                current_version@,
                str_option(endpoint),
                str_option(pubkey),
            ),
    {
        UpdaterRuntimeState {
            pending_update: None,
            snapshot: default_updater_snapshot(current_version, endpoint, pubkey),
        }
    }

    /// Records that a check has begun.
    pub fn begin_check(&mut self)
        ensures
            final(self)@ == check_begun(old(self)@),
    {
        self.snapshot.checking = true;
        self.snapshot.last_error = None;
        self.snapshot.progress = Progress::Fixed(0);
        self.snapshot.downloaded_bytes = 0;
        self.snapshot.download_total_bytes = None;
    }

    fn fail_check(&mut self, message: String)
        ensures
            final(self)@ == (RuntimeView::<U> {
                pending_update: None,
                snapshot: UpdaterView {
                    available: false,
                    latest_version: None,
                    last_error: Some(message@),
                    ..old(self)@.snapshot
                },
            }),
    {
        self.pending_update = None;
        self.snapshot.available = false;
        self.snapshot.latest_version = None;
        self.snapshot.last_error = Some(message);
    }

    /// Records what a check has brought, and gives the message of its failure.
    pub fn end_check(&mut self, outcome: CheckOutcome<U>, now: &str) -> (r: Result<(), String>)
        ensures
            final(self)@ == check_ended(old(self)@, outcome, now@),
            match r {
                Ok(_) => check_error(outcome) is None,
                Err(message) => check_error(outcome) == Some(message@),
            },
    {
        self.snapshot.checking = false;
        self.snapshot.last_checked_at = Some(now.to_owned());
        let message = match outcome {
            CheckOutcome::Found { update, version, notes } => {
                self.pending_update = Some(update);
                self.snapshot.available = true;
                self.snapshot.latest_version = Some(version);
                self.snapshot.notes = notes;
                self.snapshot.last_error = None;
                return Ok(());
            },
            CheckOutcome::UpToDate => {
                self.pending_update = None;
                self.snapshot.available = false;
                self.snapshot.latest_version = None;
                self.snapshot.notes = None;
                self.snapshot.last_error = None;
                return Ok(());
            },
            CheckOutcome::BadSettings(message) => message,
            CheckOutcome::EndpointsRefused(error) => "配置自动更新端点失败：".to_owned().concat(
                error.as_str(),
            ),
            CheckOutcome::NotBuilt(error) => "初始化自动更新器失败：".to_owned().concat(
                error.as_str(),
            ),
            CheckOutcome::Failed(error) => "检查更新失败：".to_owned().concat(error.as_str()),
        };
        self.fail_check(message.clone());
        Err(message)
    }

    /// Records that an installation has been asked for.
    pub fn request_install(&mut self)
        ensures
            final(self)@ == install_requested(old(self)@),
    {
        self.snapshot.installing = true;
        self.snapshot.checking = false;
        self.snapshot.last_error = None;
        self.snapshot.progress = Progress::Fixed(0);
        self.snapshot.downloaded_bytes = 0;
        self.snapshot.download_total_bytes = None;
    }

    /// Begins the installation; tells whether there is an update to install.
    pub fn begin_install(&mut self) -> (found: bool)
        ensures
            final(self)@ == install_begun(old(self)@),
            found == (old(self)@.pending_update is Some),
    {
        if self.pending_update.is_some() {
            true
        } else {
            self.snapshot.installing = false;
            self.snapshot.last_error = Some("当前没有待安装更新，请先检查更新".to_owned());
            false
        }
    }

    /// Records `chunk_length` more bytes of the download, and gives the number of bytes
    /// downloaded so far.
    pub fn record_download(&mut self, so_far: u64, chunk_length: u64, total: Option<u64>) -> (sum:
        u64)
        requires
            so_far + chunk_length <= u64::MAX,
        ensures
            sum == so_far + chunk_length,
            final(self)@ == downloaded(old(self)@, sum, total),
    {
        let sum = so_far + chunk_length;
        let total_bytes = match total {
            Some(bytes) => bytes,
            None => 0,
        };
        self.snapshot.downloaded_bytes = sum;
        if total_bytes > 0 {
            self.snapshot.download_total_bytes = Some(total_bytes);
            self.snapshot.progress = Progress::Capped { part: sum, whole: total_bytes, cap: 100 };
        } else {
            self.snapshot.download_total_bytes = None;
            self.snapshot.progress = Progress::Fixed(0);
        }
        self.snapshot.last_error = None;
        sum
    }

    /// Records how the installation has ended.
    pub fn end_install(&mut self, error: Option<&str>)
        ensures
            final(self)@ == install_ended(old(self)@, str_option(error)),
    {
        self.snapshot.installing = false;
        match error {
            None => {
                self.pending_update = None;
                self.snapshot.available = false;
                self.snapshot.progress = Progress::Fixed(100);
                self.snapshot.last_error = None;
            },
            Some(e) => {
                self.snapshot.last_error = Some("安装更新失败：".to_owned().concat(e));
            },
        }
    }
}

/// What can happen to the updates.
pub enum UpdaterChange<U> {
    CheckBegun,
    CheckEnded(CheckOutcome<U>, Seq<char>),
    InstallRequested,
    InstallBegun,
    Downloaded(u64, Option<u64>),
    InstallEnded(Option<Seq<char>>),
}

pub open spec fn changed<U>(state: RuntimeView<U>, change: UpdaterChange<U>) -> RuntimeView<U> {
    match change {
        UpdaterChange::CheckBegun => check_begun(state),
        UpdaterChange::CheckEnded(outcome, now) => check_ended(state, outcome, now),
        UpdaterChange::InstallRequested => install_requested(state),
        UpdaterChange::InstallBegun => install_begun(state),
        UpdaterChange::Downloaded(bytes, total) => downloaded(state, bytes, total),
        UpdaterChange::InstallEnded(error) => install_ended(state, error),
    }
}

/// An update is shown as available exactly while one is kept for installation.
pub open spec fn is_consistent<U>(state: RuntimeView<U>) -> bool {
    state.snapshot.available == (state.pending_update is Some)
}

/// The state is consistent at first, and every change keeps it so; the percentage shown
/// stays within one hundred.
pub proof fn law_available_means_pending<U>(
    state: RuntimeView<U>,
    change: UpdaterChange<U>,
    version: Seq<char>,
    endpoint: Option<Seq<char>>,
    pubkey: Option<Seq<char>>,
)
    ensures
        is_consistent(fresh_runtime::<U>(version, endpoint, pubkey)),
        fresh_runtime::<U>(version, endpoint, pubkey).snapshot.progress.at_most(100),
        is_consistent(state) ==> is_consistent(changed(state, change)),
        state.snapshot.progress.at_most(100) ==> changed(state, change).snapshot.progress.at_most(
            100,
        ),
{
}

/// What the updates are set up with never changes.
pub proof fn law_setup_is_kept<U>(state: RuntimeView<U>, change: UpdaterChange<U>)
    ensures
        changed(state, change).snapshot.configured == state.snapshot.configured,
        changed(state, change).snapshot.endpoint == state.snapshot.endpoint,
        changed(state, change).snapshot.current_version == state.snapshot.current_version,
{
}

/// Before anything has happened, updates are set up or not, and nothing else is known.
pub proof fn law_fresh_updates_are_quiet<U>(
    version: Seq<char>,
    endpoint: Option<Seq<char>>,
    pubkey: Option<Seq<char>>,
)
    ensures
        ({
            let state = fresh_runtime::<U>(version, endpoint, pubkey);
            &&& state.pending_update is None
            &&& state.snapshot.configured == ((endpoint matches Some(e) && !is_blank(e)) && (
            pubkey matches Some(k) && !is_blank(k)))
            &&& state.snapshot.current_version == version
            &&& state.snapshot.endpoint == endpoint
            &&& !state.snapshot.checking
            &&& !state.snapshot.installing
            &&& !state.snapshot.available
            &&& state.snapshot.latest_version is None
            &&& state.snapshot.progress == Progress::Fixed(0)
            &&& state.snapshot.downloaded_bytes == 0
            &&& state.snapshot.download_total_bytes is None
            &&& state.snapshot.notes is None
            &&& state.snapshot.last_error is None
            &&& state.snapshot.last_checked_at is None
        }),
{
}

/// The settings are usable exactly where endpoint and key are given and the endpoint is a
/// URL; they are then that URL and the trimmed key. Otherwise it is said which is missing,
/// the endpoint first, or what is wrong with the endpoint.
pub proof fn law_settings_need_endpoint_and_key(
    endpoint: Option<Seq<char>>,
    pubkey: Option<Seq<char>>,
)
    ensures
        ({
            let r = settings_for(endpoint, pubkey);
            let has_endpoint = endpoint matches Some(e) && !is_blank(e);
            let has_key = pubkey matches Some(k) && !is_blank(k);
            &&& (!has_endpoint ==> r == Err::<SettingsView, Seq<char>>(
                "当前构建未配置自动更新端点"@,
            ))
            &&& (has_endpoint && !has_key ==> r == Err::<SettingsView, Seq<char>>(
                "当前构建未配置自动更新公钥"@,
            ))
            &&& (has_endpoint && has_key ==> match parsed_url(trimmed(endpoint->0)) {
                Ok(url) => r matches Ok(settings) && settings.endpoint == url && settings.pubkey
                    == trimmed(pubkey->0),
                Err(error) => r == Err::<SettingsView, Seq<char>>(
                    "解析自动更新端点失败："@ + error,
                ),
            })
        }),
{
}

/// A check that begins is shown as such, and clears the error and the download that were
/// shown before; the update that was found before is kept.
pub proof fn law_check_begins_afresh<U>(state: RuntimeView<U>)
    ensures
        ({
            let after = check_begun(state);
            &&& after.snapshot.checking
            &&& after.snapshot.last_error is None
            &&& after.snapshot.progress == Progress::Fixed(0)
            &&& after.snapshot.downloaded_bytes == 0
            &&& after.snapshot.download_total_bytes is None
            &&& after.pending_update == state.pending_update
            &&& after.snapshot.available == state.snapshot.available
            &&& after.snapshot.latest_version == state.snapshot.latest_version
            &&& after.snapshot.notes == state.snapshot.notes
            &&& after.snapshot.installing == state.snapshot.installing
            &&& after.snapshot.last_checked_at == state.snapshot.last_checked_at
        }),
{
}

/// A check that has ended is shown with its time, and with what it has brought: the update
/// that was found, that there is none, or the error. An update is kept exactly where one was
/// found, and it is that one.
pub proof fn law_check_shows_what_it_brought<U>(
    state: RuntimeView<U>,
    outcome: CheckOutcome<U>,
    now: Seq<char>,
)
    ensures
        ({
            let after = check_ended(state, outcome, now);
            &&& !after.snapshot.checking
            &&& after.snapshot.last_checked_at == Some(now)
            &&& after.snapshot.installing == state.snapshot.installing
            &&& after.snapshot.progress == state.snapshot.progress
            &&& after.snapshot.available == (outcome is Found)
            &&& after.pending_update is Some <==> outcome is Found
            &&& (outcome matches CheckOutcome::Found { update, version, notes } ==> {
                &&& after.pending_update == Some(update)
                &&& after.snapshot.latest_version == Some(version@)
                &&& (notes matches Some(text) ==> after.snapshot.notes == Some(text@))
                &&& (notes is None ==> after.snapshot.notes is None)
                &&& after.snapshot.last_error is None
            })
            &&& (!(outcome is Found) ==> after.snapshot.latest_version is None)
            &&& (outcome is UpToDate ==> after.snapshot.last_error is None && after.snapshot.notes
                is None)
            &&& (outcome matches CheckOutcome::BadSettings(m) ==> after.snapshot.last_error == Some(
                m@,
            ) && after.snapshot.notes == state.snapshot.notes)
            &&& (outcome matches CheckOutcome::EndpointsRefused(e) ==> after.snapshot.last_error
                == Some("配置自动更新端点失败："@ + e@) && after.snapshot.notes
                == state.snapshot.notes)
            &&& (outcome matches CheckOutcome::NotBuilt(e) ==> after.snapshot.last_error == Some(
                "初始化自动更新器失败："@ + e@,
            ) && after.snapshot.notes == state.snapshot.notes)
            &&& (outcome matches CheckOutcome::Failed(e) ==> after.snapshot.last_error == Some(
                "检查更新失败："@ + e@,
            ) && after.snapshot.notes == state.snapshot.notes)
            &&& check_error(outcome) == after.snapshot.last_error
        }),
{
}

/// An installation that is asked for is shown as such, with nothing downloaded yet. It goes on
/// exactly where an update is kept; otherwise it is over, and that is said.
pub proof fn law_installation_needs_an_update<U>(state: RuntimeView<U>)
    ensures
        ({
            let after = install_requested(state);
            &&& after.snapshot.installing
            &&& !after.snapshot.checking
            &&& after.snapshot.last_error is None
            &&& after.snapshot.progress == Progress::Fixed(0)
            &&& after.snapshot.downloaded_bytes == 0
            &&& after.snapshot.download_total_bytes is None
            &&& after.pending_update == state.pending_update
            &&& after.snapshot.available == state.snapshot.available
            &&& after.snapshot.latest_version == state.snapshot.latest_version
            &&& after.snapshot.notes == state.snapshot.notes
        }),
        state.pending_update is Some ==> install_begun(state) == state,
        state.pending_update is None ==> {
            let after = install_begun(state);
            &&& !after.snapshot.installing
            &&& after.snapshot.last_error == Some("当前没有待安装更新，请先检查更新"@)
            &&& after.pending_update is None
            &&& after.snapshot.available == state.snapshot.available
        },
{
}

/// While an update is downloaded, the bytes are shown, of the total where that is known and
/// not zero, and their percentage.
pub proof fn law_download_is_shown<U>(state: RuntimeView<U>, bytes: u64, total: Option<u64>)
    ensures
        ({
            let after = downloaded(state, bytes, total);
            &&& after.snapshot.downloaded_bytes == bytes
            &&& after.snapshot.last_error is None
            &&& after.pending_update == state.pending_update
            &&& after.snapshot.installing == state.snapshot.installing
            &&& after.snapshot.available == state.snapshot.available
            &&& if total matches Some(whole) && whole > 0 {
                &&& after.snapshot.download_total_bytes == total
                &&& after.snapshot.progress == (Progress::Capped {
                    part: bytes,
                    whole: total->0,
                    cap: 100,
                })
            } else {
                &&& after.snapshot.download_total_bytes is None
                &&& after.snapshot.progress == Progress::Fixed(0)
            }
        }),
{
}

/// An installation that has ended well leaves no update to install; one that has failed says
/// why, and keeps the update.
pub proof fn law_installation_ends<U>(state: RuntimeView<U>, error: Seq<char>)
    ensures
        ({
            let after = install_ended(state, None);
            &&& !after.snapshot.installing
            &&& !after.snapshot.available
            &&& after.pending_update is None
            &&& after.snapshot.progress == Progress::Fixed(100)
            &&& after.snapshot.last_error is None
        }),
        ({
            let after = install_ended(state, Some(error));
            &&& !after.snapshot.installing
            &&& after.pending_update == state.pending_update
            &&& after.snapshot.available == state.snapshot.available
            &&& after.snapshot.progress == state.snapshot.progress
            &&& after.snapshot.last_error == Some("安装更新失败："@ + error)
        }),
{
}

} // verus!
