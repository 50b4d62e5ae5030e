//! Notifications on the desktop.

use vstd::prelude::*;

use crate::text::{owned, texts};

verus! {

/// The words of the command that shows a notification of a pane on the desktop.
pub open spec fn notify_words(label: Seq<char>, title: Seq<char>, body: Seq<char>) -> Seq<
    Seq<char>,
> {
    seq![
        "notify-send"@,
        "--app-name=cmux-mux"@,
        if title.len() == 0 {
            label
        } else {
            label + ": "@ + title
        },
        body,
    ]
}

/// The words of the command that shows a notification of a pane.
pub fn send(label: &str, title: &str, body: &str) -> (out: Vec<String>)
    ensures
        texts(out@) == notify_words(label@, title@, body@),
{
    let mut summary: String = owned(label);
    if !title.is_empty() {
        summary.append(": ");
        summary.append(title);
    }
    let out: Vec<String> = vec![
        "notify-send".to_string(),
        "--app-name=cmux-mux".to_string(),
        summary,
        owned(body),
    ];
    assert(texts(out@) =~= notify_words(label@, title@, body@));
    out
}

/// What is shown on the desktop: the label, with the title behind it where there is one, over the
/// body.
pub proof fn law_notified(label: Seq<char>, title: Seq<char>, body: Seq<char>)
    ensures
        notify_words(label, title, body).len() == 4,
        notify_words(label, title, body)[0] == "notify-send"@,
        notify_words(label, title, body)[3] == body,
        title.len() == 0 ==> notify_words(label, title, body)[2] == label,
        title.len() > 0 ==> label.is_prefix_of(notify_words(label, title, body)[2])
            && title.is_suffix_of(notify_words(label, title, body)[2]) && notify_words(
            label,
            title,
            body,
        )[2].len() == label.len() + 2 + title.len(),
{
    reveal_strlit(": ");
    let s = label + ": "@ + title;
    assert(s.take(label.len() as int) =~= label);
    assert(s.skip(s.len() - title.len()) =~= title);
}

} // verus!
