//! What the loading page is told: the scripts that are run in it, and the
//! status line that is kept so that it can be replayed.

use crate::text::{chars_of, same_text, text2, text3, views};
use vstd::prelude::*;

verus! {

/// How one character is written in a single-quoted JavaScript string.
pub open spec fn js_escaped_char(c: char) -> Seq<char> {
    if c == '\\' {
        seq!['\\', '\\']
    } else if c == '\'' {
        seq!['\\', '\'']
    } else {
        seq![c]
    }
}

/// How a text is written in a single-quoted JavaScript string.
pub open spec fn js_escaped(text: Seq<char>) -> Seq<char>
    decreases text.len(),
{
    if text.len() == 0 {
        seq![]
    } else {
        js_escaped_char(text[0]) + js_escaped(text.skip(1))
    }
}

/// The text that stands between the quotes of a single-quoted JavaScript
/// string: `None` where a quote ends the string early, or where a backslash
/// stands before anything but a backslash or a quote.
pub open spec fn js_unquoted(body: Seq<char>) -> Option<Seq<char>>
    decreases body.len(),
{
    if body.len() == 0 {
        Some(seq![])
    } else if body[0] == '\'' {
        None
    } else if body[0] != '\\' {
        match js_unquoted(body.skip(1)) {
            Some(rest) => Some(seq![body[0]] + rest),
            None => None,
        }
    } else if body.len() >= 2 && (body[1] == '\\' || body[1] == '\'') {
        match js_unquoted(body.skip(2)) {
            Some(rest) => Some(seq![body[1]] + rest),
            None => None,
        }
    } else {
        None
    }
}

/// An escaped text is one whole string body, and reads back as the text.
pub proof fn js_escape_reads_back(text: Seq<char>)
    ensures
        js_unquoted(js_escaped(text)) == Some(text),
    decreases text.len(),
{
    if text.len() == 0 {
        assert(text == Seq::<char>::empty());
    } else {
        let rest = text.skip(1);
        let head = js_escaped_char(text[0]);
        js_escape_reads_back(rest);
        assert((head + js_escaped(rest)).skip(head.len() as int) == js_escaped(rest));
        assert(seq![text[0]] + rest == text);
    }
}

/// Escapes a text for a single-quoted JavaScript string: a backslash before
/// each backslash and each single quote.
pub fn js_escape(text: &str) -> (result: String)
    ensures
        result@ == js_escaped(text@),
{
    let chars = chars_of(text);
    let mut result = String::new();
    let mut i: usize = 0;
    assert(chars@.skip(0) == chars@);
    while i < chars.len()
        invariant
            chars@ == text@,
            i <= chars.len(),
            result@ + js_escaped(chars@.skip(i as int)) == js_escaped(text@),
        decreases chars.len() - i,
    {
        let c: char = chars[i];
        let ghost before = result@;
        if c == '\\' || c == '\'' {
            result.push('\\');
        }
        result.push(c);
        proof {
            let rest = chars@.skip(i as int);
            assert(rest.skip(1) == chars@.skip(i + 1));
            assert(result@ == before + js_escaped_char(c));
            assert(before + (js_escaped_char(c) + js_escaped(rest.skip(1))) == result@ + js_escaped(
                rest.skip(1),
            ));
        }
        i = i + 1;
    }
    result
}

/// The status line that was last sent to the loading page. It is kept because
/// the page's script may not have been there yet to take it.
pub struct LoadingStatus {
    text: String,
}

impl View for LoadingStatus {
    type V = Seq<char>;

    closed spec fn view(&self) -> Seq<char> {
        self.text@
    }
}

impl LoadingStatus {
    /// No status line was sent yet.
    pub fn new() -> (status: LoadingStatus)
        ensures
            status@ == Seq::<char>::empty(),
    {
        LoadingStatus { text: String::new() }
    }
}

/// The script that shows a status line on the loading page, if its own script
/// is there.
pub open spec fn status_script(text: Seq<char>) -> Seq<char> {
    "window.__dshLoading && window.__dshLoading.setStatus('"@ + js_escaped(text) + "');"@
}

/// The script that shows a status line again once the page has loaded.
pub open spec fn replay_script(text: Seq<char>) -> Seq<char> {
    "if (window.__dshLoading) window.__dshLoading.setStatus('"@ + js_escaped(text) + "');"@
}

/// The script that sets the theme of the loading page.
pub open spec fn theme_script(theme: Seq<char>) -> Seq<char> {
    "window.__dshTheme = '"@ + theme
        + "'; if (window.__dshLoading) window.__dshLoading.applyTheme();"@
}

/// The script that shows why the start failed.
pub open spec fn failure_script(error: Seq<char>) -> Seq<char> {
    "document.getElementById('status').textContent = '启动失败';document.getElementById('error').textContent = '"@
        + js_escaped("启动失败："@ + error) + "';"@
}

/// Keeps `text` as the status line and gives the script that shows it.
pub fn set_loading_status(status: &mut LoadingStatus, text: &str) -> (script: String)
    ensures
        final(status)@ == text@,
        script@ == status_script(text@),
{
    status.text = text.to_owned();
    text3(
        "window.__dshLoading && window.__dshLoading.setStatus('",
        js_escape(text).as_str(),
        "');",
    )
}

/// The status line that was last kept; empty if there was none.
pub fn loading_status(status: &LoadingStatus) -> (text: String)
    ensures
        text@ == status@,
{
    status.text.clone()
}

/// The script that shows why the start failed, in place of the status line.
pub fn boot_failure_script(error: &str) -> (script: String)
    ensures
        script@ == failure_script(error@),
{
    let message = text2("启动失败：", error);
    text3(
        "document.getElementById('status').textContent = '启动失败';document.getElementById('error').textContent = '",
        js_escape(message.as_str()).as_str(),
        "';",
    )
}

/// The scripts for a page that has loaded. The pages of the service itself get
/// none. Any other page gets the theme, and the status line if there is one.
pub open spec fn page_scripts(
    host: Option<Seq<char>>,
    theme: Seq<char>,
    status: Seq<char>,
) -> Seq<Seq<char>> {
    if host == Some("127.0.0.1"@) {
        seq![]
    } else if status.len() == 0 {
        seq![theme_script(theme)]
    } else {
        seq![theme_script(theme), replay_script(status)]
    }
}

/// The scripts for a page that has loaded.
pub fn page_load_scripts(host: Option<&str>, theme: &str, status: &LoadingStatus) -> (scripts: Vec<
    String,
>)
    ensures
        views(scripts@) == page_scripts(crate::paths::str_view(host), theme@, status@),
{
    let mut scripts: Vec<String> = Vec::new();
    if let Some(name) = host {
        if same_text(name, "127.0.0.1") {
            assert(views(scripts@) == Seq::<Seq<char>>::empty());
            return scripts;
        }
    }
    scripts.push(
        text3(
            "window.__dshTheme = '",
            theme,
            "'; if (window.__dshLoading) window.__dshLoading.applyTheme();",
        ),
    );
    if !status.text.as_str().is_empty() {
        scripts.push(
            text3(
                "if (window.__dshLoading) window.__dshLoading.setStatus('",
                js_escape(status.text.as_str()).as_str(),
                "');",
            ),
        );
    }
    scripts
}

/// No status line is lost: one that was sent before the loading page could take
/// it is shown once the page has loaded.
pub proof fn status_is_replayed(host: Option<Seq<char>>, theme: Seq<char>, status: Seq<char>)
    requires
        host != Some("127.0.0.1"@),
        status.len() > 0,
    ensures
        page_scripts(host, theme, status).contains(replay_script(status)),
{
    assert(page_scripts(host, theme, status)[1] == replay_script(status));
}

/// Whether a script is `start`, a text in a single-quoted JavaScript string
/// without its opening quote, and `end`: what stands between the two is one whole
/// string body that reads as the text.
pub open spec fn says(script: Seq<char>, start: Seq<char>, text: Seq<char>, end: Seq<char>) -> bool {
    exists|body: Seq<char>| #[trigger]
        (start + body + end) == script && js_unquoted(body) == Some(text)
}

proof fn escaped_text_is_said(start: Seq<char>, text: Seq<char>, end: Seq<char>)
    ensures
        says(start + js_escaped(text) + end, start, text, end),
{
    js_escape_reads_back(text);
}

/// The scripts that show a status line and the failure of a start hold the very
/// text, whatever characters it has, as one string.
pub proof fn scripts_show_the_text(text: &str, escaped: String, failure: String)
    requires
        call_ensures(js_escape, (text,), escaped),
        call_ensures(boot_failure_script, (text,), failure),
    ensures
        js_unquoted(escaped@) == Some(text@),
        says(
            status_script(text@),
            "window.__dshLoading && window.__dshLoading.setStatus('"@,
            text@,
            "');"@,
        ),
        says(
            failure@,
            "document.getElementById('status').textContent = '启动失败';document.getElementById('error').textContent = '"@,
            "启动失败："@ + text@,
            "';"@,
        ),
{
    js_escape_reads_back(text@);
    escaped_text_is_said(
        "window.__dshLoading && window.__dshLoading.setStatus('"@,
        text@,
        "');"@,
    );
    escaped_text_is_said(
        "document.getElementById('status').textContent = '启动失败';document.getElementById('error').textContent = '"@,
        "启动失败："@ + text@,
        "';"@,
    );
}

/// The pages of the service are left alone. Any other page is told the theme
/// first, and then the status line that was last kept, if that is not empty; what
/// was kept is told by its text.
pub proof fn loaded_pages_are_told_theme_and_status(
    host: Option<&str>,
    theme: &str,
    status: LoadingStatus,
    kept: String,
    scripts: Vec<String>,
)
    requires
        call_ensures(page_load_scripts, (host, theme, &status), scripts),
        call_ensures(loading_status, (&status,), kept),
    ensures
        host is Some && host->0@ == "127.0.0.1"@ ==> scripts@.len() == 0,
        host is None || host->0@ != "127.0.0.1"@ ==> {
            &&& scripts@.len() == if kept@.len() == 0 {
                1nat
            } else {
                2nat
            }
            &&& scripts@[0]@ == "window.__dshTheme = '"@ + theme@
                + "'; if (window.__dshLoading) window.__dshLoading.applyTheme();"@
            &&& kept@.len() > 0 ==> says(
                scripts@[1]@,
                "if (window.__dshLoading) window.__dshLoading.setStatus('"@,
                kept@,
                "');"@,
            )
        },
{
    let told = page_scripts(crate::paths::str_view(host), theme@, status@);
    assert(views(scripts@).len() == scripts@.len());
    escaped_text_is_said(
        "if (window.__dshLoading) window.__dshLoading.setStatus('"@,
        status@,
        "');"@,
    );
    if host is None || host->0@ != "127.0.0.1"@ {
        assert(views(scripts@)[0] == scripts@[0]@);
        assert(told[0] == theme_script(theme@));
        if status@.len() > 0 {
            assert(views(scripts@)[1] == scripts@[1]@);
            assert(told[1] == replay_script(status@));
        }
    }
}

/// A status line that was sent is kept until the next one: it is what is given
/// back, and the script shows the very text.
pub proof fn sent_status_is_kept(
    status: &mut LoadingStatus,
    text: &str,
    script: String,
    kept: String,
)
    requires
        call_ensures(set_loading_status, (status, text), script),
        call_ensures(loading_status, (&*final(status),), kept),
    ensures
        kept@ == text@,
        says(
            script@,
            "window.__dshLoading && window.__dshLoading.setStatus('"@,
            text@,
            "');"@,
        ),
{
    escaped_text_is_said(
        "window.__dshLoading && window.__dshLoading.setStatus('"@,
        text@,
        "');"@,
    );
}

/// No status line was sent at first.
pub proof fn status_is_empty_at_first(status: LoadingStatus, kept: String)
    requires
        call_ensures(LoadingStatus::new, (), status),
        call_ensures(loading_status, (&status,), kept),
    ensures
        kept@.len() == 0,
{
}

} // verus!
