//! Error reports: a headline and the details below it, and the text of errors.
use vstd::prelude::*;

verus! {

/// An error report: a headline and the details below it.
#[derive(Debug)]
pub struct Report {
    pub msg: String,
    pub details: String,
}

/// An error report as plain values.
pub struct ReportView {
    pub msg: Seq<char>,
    pub details: Seq<char>,
}

impl View for Report {
    type V = ReportView;

    open spec fn view(&self) -> ReportView {
        ReportView { msg: self.msg@, details: self.details@ }
    }
}

impl Report {
    /// An error report with the headline `msg`.
    pub fn error(msg: &str, details: &str) -> (r: Report)
        ensures
            r@ == (ReportView { msg: msg@, details: details@ }),
    {
        Report { msg: msg.to_owned(), details: details.to_owned() }
    }
}

/// Calls `String::push`, which appends the character `c` to `text`.
#[verifier::external_body]
pub(crate) fn push_char(text: &mut String, c: char)
    ensures
        final(text)@ == old(text)@.push(c),
{
    text.push(c)
}

/// Characters written out as a list: each between backticks, with `, ` between two.
pub open spec fn listed_chars(chars: Seq<char>) -> Seq<char>
    decreases chars.len(),
{
    if chars.len() == 0 {
        Seq::<char>::empty()
    } else if chars.len() == 1 {
        seq!['`', chars[0], '`']
    } else {
        listed_chars(chars.drop_last()) + seq![',', ' ', '`', chars.last(), '`']
    }
}

/// Writes characters out as a list, each between backticks.
pub fn list_chars(chars: &Vec<char>) -> (text: String)
    ensures
        text@ == listed_chars(chars@),
{
    let mut text = String::new();
    let n = chars.len();
    let mut i: usize = 0;
    while i < n
        invariant
            n == chars.len(),
            i <= n,
            text@ == listed_chars(chars@.take(i as int)),
        decreases n - i,
    {
        let ghost next = chars@.take(i as int + 1);
        assert(next.drop_last() =~= chars@.take(i as int));
        assert(next.last() == chars@[i as int]);
        if i > 0 {
            push_char(&mut text, ',');
            push_char(&mut text, ' ');
        }
        push_char(&mut text, '`');
        push_char(&mut text, chars[i]);
        push_char(&mut text, '`');
        if i == 0 {
            assert(text@ =~= seq!['`', chars@[0], '`']);
        } else {
            assert(text@ =~= listed_chars(chars@.take(i as int)) + seq![',', ' ', '`', chars@[i as int], '`']);
        }
        i = i + 1;
    }
    assert(chars@.take(n as int) =~= chars@);
    text
}

} // verus!
