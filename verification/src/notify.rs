//! Composition of user-facing notifications for terminal download
//! outcomes. Delivery (emitting to a window, a toast, a log) is a
//! fire-and-forget concern of the surrounding application; what the
//! notification says is fixed here.

use crate::numfmt::{i32_to_string, int_rep};
use vstd::prelude::*;

verus! {

/// One user-facing notification: a title, a body, and an optional icon.
pub struct Notification {
    pub title: String,
    pub body: String,
    pub icon: Option<String>,
}

/// Composes the notifications the orchestrator sends on terminal
/// transitions. It holds no delivery channel: the caller takes the
/// composed `Notification` to whatever sink it drives.
pub struct NotificationManager {
}

impl NotificationManager {
    /// A composer with nothing to configure.
    pub fn new() -> (m: NotificationManager) {
        NotificationManager {  }
    }

    /// The notification for a completed download.
    pub fn notify_download_complete(&self, title: &String) -> (n: Notification)
        ensures
            n.title@ == "Download Completato"@,
            n.body@ == title@ + " è stato scaricato con successo!"@,
            n.icon is None,
    {
        let mut body = title.clone();
        body.append(" è stato scaricato con successo!");
        Notification { title: "Download Completato".to_owned(), body, icon: None }
    }

    /// The notification for a failed download, carrying the failure
    /// detail.
    pub fn notify_download_error(&self, title: &String, error: &String) -> (n: Notification)
        ensures
            n.title@ == "Errore Download"@,
            n.body@ == "Errore durante il download di "@ + title@ + ": "@ + error@,
            n.icon is None,
    {
        let mut body = "Errore durante il download di ".to_owned();
        body.append(title.as_str());
        body.append(": ");
        body.append(error.as_str());
        Notification { title: "Errore Download".to_owned(), body, icon: None }
    }

    /// The notification for a newly available episode of a series.
    pub fn notify_new_episode(&self, series_title: &String, season: i32, episode: i32) -> (n:
        Notification)
        ensures
            n.title@ == "Nuovo Episodio Disponibile"@,
            n.body@ == "S"@ + int_rep(season as int) + "E"@ + int_rep(episode as int) + " di "@
                + series_title@ + " è ora disponibile!"@,
            n.icon is None,
    {
        let mut body = "S".to_owned();
        let s = i32_to_string(season);
        body.append(s.as_str());
        body.append("E");
        let e = i32_to_string(episode);
        body.append(e.as_str());
        body.append(" di ");
        body.append(series_title.as_str());
        body.append(" è ora disponibile!");
        Notification { title: "Nuovo Episodio Disponibile".to_owned(), body, icon: None }
    }
}

} // verus!
