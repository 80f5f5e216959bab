//! Startup configuration policy: notification settings are required exactly
//! when a notification is to be sent, and a missing one is fatal before any
//! fetch. In report-only mode none of them is needed.
use vstd::prelude::*;

verus! {

/// The delivery settings for one notification run.
pub struct NotifySettings {
    pub to_email: String,
    pub from_email: String,
    pub smtp_username: String,
    pub smtp_password: String,
    pub smtp_server: String,
}

/// How a run reports: to the console only, or by a notification with the
/// given settings.
pub enum RunPlan {
    ReportOnly,
    Notify(NotifySettings),
}

/// The first missing required setting, in the order they are read.
pub enum ConfigError {
    MissingToEmail,
    MissingFromEmail,
    MissingSmtpUsername,
    MissingSmtpPassword,
}

/// Decides the run plan from the mode switch and the optional settings.
/// Report-only mode never fails and needs no settings. Otherwise every
/// setting but the server is required — the first missing one is the error —
/// and an absent server falls back to a default relay.
pub fn plan_run(
    report_only: bool,
    to_email: Option<String>,
    from_email: Option<String>,
    smtp_username: Option<String>,
    smtp_password: Option<String>,
    smtp_server: Option<String>,
) -> (r: Result<RunPlan, ConfigError>)
    ensures
        report_only ==> (r matches Ok(p) && p is ReportOnly),
        !report_only ==> match r {
            Ok(p) => {
                &&& to_email matches Some(t)
                &&& from_email matches Some(fr)
                &&& smtp_username matches Some(u)
                &&& smtp_password matches Some(w)
                &&& p matches RunPlan::Notify(s)
                &&& s.to_email@ == t@
                &&& s.from_email@ == fr@
                &&& s.smtp_username@ == u@
                &&& s.smtp_password@ == w@
                &&& match smtp_server {
                    Some(v) => s.smtp_server@ == v@,
                    None => s.smtp_server@ == ("smtp.gmail.com")@,
                }
            },
            Err(e) => match e {
                ConfigError::MissingToEmail => to_email is None,
                ConfigError::MissingFromEmail => to_email is Some && from_email is None,
                ConfigError::MissingSmtpUsername => to_email is Some && from_email is Some
                    && smtp_username is None,
                ConfigError::MissingSmtpPassword => to_email is Some && from_email is Some
                    && smtp_username is Some && smtp_password is None,
            },
        },
{
    if report_only {
        return Ok(RunPlan::ReportOnly);
    }
    let to_email = match to_email {
        Some(v) => v,
        None => {
            return Err(ConfigError::MissingToEmail);
        },
    };
    let from_email = match from_email {
        Some(v) => v,
        None => {
            return Err(ConfigError::MissingFromEmail);
        },
    };
    let smtp_username = match smtp_username {
        Some(v) => v,
        None => {
            return Err(ConfigError::MissingSmtpUsername);
        },
    };
    let smtp_password = match smtp_password {
        Some(v) => v,
        None => {
            return Err(ConfigError::MissingSmtpPassword);
        },
    };
    let smtp_server = match smtp_server {
        Some(v) => v,
        None => String::from_str("smtp.gmail.com"),
    };
    Ok(
        RunPlan::Notify(
            NotifySettings { to_email, from_email, smtp_username, smtp_password, smtp_server },
        ),
    )
}

} // verus!
