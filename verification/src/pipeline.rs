//! What stands around the report: the settings of a run, the address of the
//! search, the choice of the text that is delivered, and the message that
//! carries it.
//!
//! Nothing here reads the environment or the clock. Settings are handed in
//! as values once, when the process starts.

use vstd::prelude::*;

use crate::date::{date_format, parsed_day_number, CalendarDate, FIRST_DAY, LAST_DAY};
use crate::error::StandupError;
use crate::text::{chars_of, push_str, string_of};

verus! {

/// A setting without which no run can start.
#[derive(Debug, Clone, Copy, PartialEq, Eq, Structural)]
pub enum ConfigError {
    /// The GitHub access token is missing or empty.
    MissingGithubToken,
    /// The address of the delivery webhook is missing or empty.
    MissingWebhookUrl,
}

/// The settings of a run.
#[derive(Debug)]
pub struct StandupConfig {
    pub github_token: String,
    /// The key for the summarizer; empty where none is configured.
    pub openai_api_key: String,
    pub openai_base_url: String,
    pub openai_model: String,
    pub feishu_webhook_url: String,
}

/// What a configuration holds, as plain sequences.
pub struct StandupConfigView {
    pub github_token: Seq<char>,
    pub openai_api_key: Seq<char>,
    pub openai_base_url: Seq<char>,
    pub openai_model: Seq<char>,
    pub feishu_webhook_url: Seq<char>,
}

impl View for StandupConfig {
    type V = StandupConfigView;

    open spec fn view(&self) -> StandupConfigView {
        StandupConfigView {
            github_token: self.github_token@,
            openai_api_key: self.openai_api_key@,
            openai_base_url: self.openai_base_url@,
            openai_model: self.openai_model@,
            feishu_webhook_url: self.feishu_webhook_url@,
        }
    }
}

/// The value of a setting, or `fallback` where it was not given.
pub open spec fn setting_or(given: Option<Seq<char>>, fallback: Seq<char>) -> Seq<char> {
    match given {
        Some(value) => value,
        None => fallback,
    }
}

/// The address of the search for the pull requests created on a date.
pub open spec fn search_url(date: Seq<char>) -> Seq<char> {
    "https://api.github.com/search/issues?q=is:pr+author:@me+created:"@ + date
}

/// The message that carries a report: a title line, the report, and the
/// time at which it was made.
pub open spec fn delivery_message(report: Seq<char>, generated_at: Seq<char>) -> Seq<char> {
    "📋 每日站会报告\n"@ + report + "\n\n⏰ 生成时间: "@ + generated_at
}

/// The text that is delivered: the summarizer's where it gave one, else the
/// report itself.
pub open spec fn final_report(report: Seq<char>, summarized: Option<Seq<char>>) -> Seq<char> {
    match summarized {
        Some(text) => text,
        None => report,
    }
}

fn text_or(given: Option<String>, fallback: &str) -> (value: String)
    ensures
        value@ == setting_or(
            match given {
                Some(v) => Some(v@),
                None => None,
            },
            fallback@,
        ),
{
    match given {
        Some(value) => value,
        None => fallback.to_owned(),
    }
}

impl StandupConfig {
    /// Puts the settings of a run together.
    ///
    /// The GitHub token and the webhook address must not be empty; the
    /// token is looked at first. The summarizer's key may be missing, and
    /// its address and model have defaults.
    pub fn new(
        github_token: String,
        openai_api_key: Option<String>,
        openai_base_url: Option<String>,
        openai_model: Option<String>,
        feishu_webhook_url: String,
    ) -> (config: Result<StandupConfig, ConfigError>)
        ensures
            config is Ok <==> github_token@.len() > 0 && feishu_webhook_url@.len() > 0,
            config matches Err(e) ==> e == if github_token@.len() == 0 {
                ConfigError::MissingGithubToken
            } else {
                ConfigError::MissingWebhookUrl
            },
            config matches Ok(c) ==> c@ == (StandupConfigView {
                github_token: github_token@,
                openai_api_key: setting_or(
                    match openai_api_key {
                        Some(v) => Some(v@),
                        None => None,
                    },
                    Seq::empty(),
                ),
                openai_base_url: setting_or(
                    match openai_base_url {
                        Some(v) => Some(v@),
                        None => None,
                    },
                    "https://api.openai.com/v1"@,
                ),
                openai_model: setting_or(
                    match openai_model {
                        Some(v) => Some(v@),
                        None => None,
                    },
                    "gpt-3.5-turbo"@,
                ),
                feishu_webhook_url: feishu_webhook_url@,
            }),
    {
        if github_token.as_str().unicode_len() == 0 {
            return Err(ConfigError::MissingGithubToken);
        }
        if feishu_webhook_url.as_str().unicode_len() == 0 {
            return Err(ConfigError::MissingWebhookUrl);
        }
        proof {
            reveal_strlit("");
            assert(""@ =~= Seq::<char>::empty());
        }
        Ok(
            StandupConfig {
                github_token,
                openai_api_key: text_or(openai_api_key, ""),
                openai_base_url: text_or(openai_base_url, "https://api.openai.com/v1"),
                openai_model: text_or(openai_model, "gpt-3.5-turbo"),
                feishu_webhook_url,
            },
        )
    }

    /// Whether a summarizer is configured: whether its key is not empty.
    pub fn uses_summarizer(&self) -> (b: bool)
        ensures
            b == (self@.openai_api_key.len() > 0),
    {
        self.openai_api_key.as_str().unicode_len() > 0
    }
}

/// The address of the search for the pull requests created on `date`.
///
/// The date must be written as `YYYY-MM-DD`; any other text is an
/// `InvalidDate`, and no address is made.
pub fn search_url_for(date: &str) -> (url: Result<String, StandupError>)
    ensures
        url is Ok <==> (parsed_day_number(date@, date_format()) matches Some(n) && FIRST_DAY <= n
            <= LAST_DAY),
        url matches Ok(text) ==> text@ == search_url(date@),
        url matches Err(e) ==> e == StandupError::InvalidDate,
{
    match CalendarDate::parse(date) {
        Ok(_) => {
            let mut chars = chars_of(
                "https://api.github.com/search/issues?q=is:pr+author:@me+created:",
            );
            push_str(&mut chars, date);
            Ok(string_of(&chars))
        },
        Err(e) => Err(e),
    }
}

/// Chooses the text that is delivered. `summarized` is `None` where no
/// summarizer is configured or where it failed; the report then goes out
/// as it is.
pub fn choose_final_report(report: String, summarized: Option<String>) -> (text: String)
    ensures
        text@ == final_report(
            report@,
            match summarized {
                Some(s) => Some(s@),
                None => None,
            },
        ),
{
    match summarized {
        Some(text) => text,
        None => report,
    }
}

/// The message that carries `report`, made at the time `generated_at`.
pub fn format_delivery_message(report: &str, generated_at: &str) -> (message: String)
    ensures
        message@ == delivery_message(report@, generated_at@),
{
    let mut chars = chars_of("📋 每日站会报告\n");
    push_str(&mut chars, report);
    push_str(&mut chars, "\n\n⏰ 生成时间: ");
    push_str(&mut chars, generated_at);
    string_of(&chars)
}

} // verus!
