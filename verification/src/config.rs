//! Saved account and settings records, and the request shapes of the batch
//! deletion operations.

use vstd::prelude::*;
use vstd::string::StringExecFns;
use crate::pipeline::LocalFlow;

verus! {

/// One saved account: a label and its credentials.
#[derive(Clone, Debug)]
pub struct AccountConfig {
    pub name: String,
    pub username: String,
    pub password: String,
}

/// User-interface settings.
#[derive(Clone, Debug)]
pub struct SettingsConfig {
    pub language: String,
    pub theme: String,
    pub auto_update: bool,
}

impl Default for SettingsConfig {
    /// Chinese interface text, the system theme, updates checked.
    fn default() -> (r: Self)
        ensures
            r.language@ == "zh-CN"@,
            r.theme@ == "system"@,
            r.auto_update,
    {
        SettingsConfig {
            language: String::from_str("zh-CN"),
            theme: String::from_str("system"),
            auto_update: true,
        }
    }
}

/// The saved configuration: the account list and the settings.
#[derive(Clone, Debug)]
pub struct Config {
    pub accounts: Vec<AccountConfig>,
    pub settings: SettingsConfig,
}

impl Default for Config {
    /// Two empty account slots and the default settings.
    fn default() -> (r: Self)
        ensures
            r.accounts@.len() == 2,
            r.accounts@[0].name@ == "账号1"@,
            r.accounts@[1].name@ == "账号2"@,
            r.accounts@[0].username@ == Seq::<char>::empty(),
            r.accounts@[0].password@ == Seq::<char>::empty(),
            r.accounts@[1].username@ == Seq::<char>::empty(),
            r.accounts@[1].password@ == Seq::<char>::empty(),
            r.settings.language@ == "zh-CN"@,
            r.settings.theme@ == "system"@,
            r.settings.auto_update,
    {
        let mut accounts: Vec<AccountConfig> = Vec::new();
        accounts.push(
            AccountConfig {
                name: String::from_str("账号1"),
                username: String::new(),
                password: String::new(),
            },
        );
        accounts.push(
            AccountConfig {
                name: String::from_str("账号2"),
                username: String::new(),
                password: String::new(),
            },
        );
        Config { accounts, settings: SettingsConfig::default() }
    }
}

/// A request to delete local packages.
#[derive(Debug)]
pub struct DeleteRequest {
    pub flows: Vec<LocalFlow>,
}

/// A request to move remote packages into the recycle bin.
#[derive(Clone, Debug)]
pub struct DeleteCloudRequest {
    pub token: String,
    pub app_ids: Vec<String>,
}

/// How far a download has come.
#[derive(Clone, Copy, Debug, PartialEq, Eq, Structural)]
pub struct DownloadProgress {
    pub downloaded: u64,
    pub total: u64,
    pub percentage: u32,
}

/// The whole-percent share of `downloaded` in `total`, capped at one
/// hundred; zero when the total is unknown.
pub fn progress_percentage(downloaded: u64, total: u64) -> (r: u32)
    ensures
        total == 0 ==> r == 0,
        total > 0 ==> r == (if downloaded * 100 / (total as int) > 100 {
            100int
        } else {
            downloaded * 100 / (total as int)
        }),
{
    if total == 0 {
        return 0;
    }
    let share = (downloaded as u128) * 100 / (total as u128);
    if share > 100 {
        100
    } else {
        proof {
            assert((downloaded as u128) * 100 == downloaded * 100) by (nonlinear_arith);
        }
        share as u32
    }
}

/// Reports one download step: the byte counts and the capped percentage.
pub fn progress_report(downloaded: u64, total: u64) -> (r: DownloadProgress)
    ensures
        r.downloaded == downloaded,
        r.total == total,
        total == 0 ==> r.percentage == 0,
        total > 0 ==> r.percentage == (if downloaded * 100 / (total as int) > 100 {
            100int
        } else {
            downloaded * 100 / (total as int)
        }),
{
    DownloadProgress { downloaded, total, percentage: progress_percentage(downloaded, total) }
}

} // verus!
