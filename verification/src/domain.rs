//! The rules a domain must follow so that its reversal can name a Java package.
use vstd::prelude::*;

use crate::report::{list_chars, listed_chars};
use crate::seqs::{lemma_split_join, lemma_split_shape, reversed_domain, split_on, split_str};
use crate::text::{bad_chars, char_is_digit, find_bad_chars, is_digit, same_text};

verus! {

/// What is wrong with a domain, as plain values.
pub enum DomainFault {
    Empty,
    NotAsciiAlphanumeric { bad_chars: Seq<char> },
    StartsWithDigit { label: Seq<char> },
    ReservedPackageName { package_name: Seq<char> },
    ReservedKeyword { keyword: Seq<char> },
    StartsOrEndsWithADot,
    EmptyLabel,
}

/// Why a domain was refused.
#[derive(Debug, PartialEq, Eq)]
pub enum DomainError {
    /// The domain is empty.
    Empty,
    /// A label holds characters other than ASCII letters, digits, `-` and `_`.
    NotAsciiAlphanumeric { bad_chars: Vec<char> },
    /// A label starts with a digit.
    StartsWithDigit { label: String },
    /// The last label is a package name that the platform reserves.
    ReservedPackageName { package_name: String },
    /// A label is a Java keyword.
    ReservedKeyword { keyword: String },
    /// The domain starts or ends with a dot.
    StartsOrEndsWithADot,
    /// Two dots stand next to each other.
    EmptyLabel,
}

impl View for DomainError {
    type V = DomainFault;

    open spec fn view(&self) -> DomainFault {
        match self {
            DomainError::Empty => DomainFault::Empty,
            DomainError::NotAsciiAlphanumeric { bad_chars } => DomainFault::NotAsciiAlphanumeric {
                bad_chars: bad_chars@,
            },
            DomainError::StartsWithDigit { label } => DomainFault::StartsWithDigit { label: label@ },
            DomainError::ReservedPackageName { package_name } => DomainFault::ReservedPackageName {
                package_name: package_name@,
            },
            DomainError::ReservedKeyword { keyword } => DomainFault::ReservedKeyword {
                keyword: keyword@,
            },
            DomainError::StartsOrEndsWithADot => DomainFault::StartsOrEndsWithADot,
            DomainError::EmptyLabel => DomainFault::EmptyLabel,
        }
    }
}

/// The sentence that says what is wrong with a domain.
pub open spec fn domain_fault_text(fault: DomainFault) -> Seq<char> {
    match fault {
        DomainFault::Empty => "Domain can't be empty."@,
        DomainFault::NotAsciiAlphanumeric { bad_chars } =>
            "Domain labels may only hold ASCII letters, digits, `-` and `_`, not "@ + listed_chars(
                bad_chars,
            ) + "."@,
        DomainFault::StartsWithDigit { label } => "Domain label \""@ + label
            + "\" starts with a digit, which isn't allowed."@,
        DomainFault::ReservedPackageName { package_name } => "\""@ + package_name
            + "\" is a reserved package name and can't end the domain."@,
        DomainFault::ReservedKeyword { keyword } => "\""@ + keyword
            + "\" is a Java keyword and can't be a domain label."@,
        DomainFault::StartsOrEndsWithADot => "Domain can't start or end with a dot."@,
        DomainFault::EmptyLabel => "Domain can't contain empty labels."@,
    }
}

fn quoted_sentence(value: &String, rest: &str) -> (text: String)
    ensures
        text@ == "\""@ + value@ + rest@,
{
    let mut text = "\"".to_owned();
    text.append(value.as_str());
    text.append(rest);
    text
}

impl DomainError {
    /// The sentence that says what is wrong.
    pub fn describe(&self) -> (text: String)
        ensures
            text@ == domain_fault_text(self@),
    {
        match self {
            DomainError::Empty => "Domain can't be empty.".to_owned(),
            DomainError::NotAsciiAlphanumeric { bad_chars } => {
                let mut text =
                    "Domain labels may only hold ASCII letters, digits, `-` and `_`, not ".to_owned();
                let listed = list_chars(bad_chars);
                text.append(listed.as_str());
                text.append(".");
                text
            },
            DomainError::StartsWithDigit { label } => {
                let mut text = "Domain label \"".to_owned();
                text.append(label.as_str());
                text.append("\" starts with a digit, which isn't allowed.");
                text
            },
            DomainError::ReservedPackageName { package_name } => quoted_sentence(
                package_name,
                "\" is a reserved package name and can't end the domain.",
            ),
            DomainError::ReservedKeyword { keyword } => quoted_sentence(
                keyword,
                "\" is a Java keyword and can't be a domain label.",
            ),
            DomainError::StartsOrEndsWithADot => "Domain can't start or end with a dot.".to_owned(),
            DomainError::EmptyLabel => "Domain can't contain empty labels.".to_owned(),
        }
    }
}

/// A Java keyword or literal, which cannot stand as a package segment.
pub open spec fn is_java_keyword(label: Seq<char>) -> bool {
    ||| label == "abstract"@
    ||| label == "assert"@
    ||| label == "boolean"@
    ||| label == "break"@
    ||| label == "byte"@
    ||| label == "case"@
    ||| label == "catch"@
    ||| label == "char"@
    ||| label == "class"@
    ||| label == "const"@
    ||| label == "continue"@
    ||| label == "default"@
    ||| label == "do"@
    ||| label == "double"@
    ||| label == "else"@
    ||| label == "enum"@
    ||| label == "extends"@
    ||| label == "final"@
    ||| label == "finally"@
    ||| label == "float"@
    ||| label == "for"@
    ||| label == "goto"@
    ||| label == "if"@
    ||| label == "implements"@
    ||| label == "import"@
    ||| label == "instanceof"@
    ||| label == "int"@
    ||| label == "interface"@
    ||| label == "long"@
    ||| label == "native"@
    ||| label == "new"@
    ||| label == "package"@
    ||| label == "private"@
    ||| label == "protected"@
    ||| label == "public"@
    ||| label == "return"@
    ||| label == "short"@
    ||| label == "static"@
    ||| label == "strictfp"@
    ||| label == "super"@
    ||| label == "switch"@
    ||| label == "synchronized"@
    ||| label == "this"@
    ||| label == "throw"@
    ||| label == "throws"@
    ||| label == "transient"@
    ||| label == "try"@
    ||| label == "void"@
    ||| label == "volatile"@
    ||| label == "while"@
    ||| label == "true"@
    ||| label == "false"@
    ||| label == "null"@
}

/// A top-level package name that the Android toolchain keeps for itself.
pub open spec fn is_reserved_package_name(label: Seq<char>) -> bool {
    label == "kotlin"@ || label == "java"@
}

/// What is wrong with one label, if anything.
pub open spec fn label_fault(label: Seq<char>) -> Option<DomainFault> {
    if label.len() == 0 {
        Some(DomainFault::EmptyLabel)
    } else if is_java_keyword(label) {
        Some(DomainFault::ReservedKeyword { keyword: label })
    } else if is_digit(label[0]) {
        Some(DomainFault::StartsWithDigit { label })
    } else if bad_chars(label).len() > 0 {
        Some(DomainFault::NotAsciiAlphanumeric { bad_chars: bad_chars(label) })
    } else {
        None
    }
}

/// What is wrong with the first faulty label of `labels`, if any.
pub open spec fn first_label_fault(labels: Seq<Seq<char>>) -> Option<DomainFault>
    decreases labels.len(),
{
    if labels.len() == 0 {
        None
    } else {
        match first_label_fault(labels.drop_last()) {
            Some(f) => Some(f),
            None => label_fault(labels.last()),
        }
    }
}

/// What is wrong with a domain, if anything: checked in this order, emptiness, a dot
/// at either end, each label from the first, and last the reserved package names.
pub open spec fn domain_fault(domain: Seq<char>) -> Option<DomainFault> {
    let labels = split_on(domain, '.');
    if domain.len() == 0 {
        Some(DomainFault::Empty)
    } else if domain[0] == '.' || domain.last() == '.' {
        Some(DomainFault::StartsOrEndsWithADot)
    } else {
        match first_label_fault(labels) {
            Some(f) => Some(f),
            None => if is_reserved_package_name(labels.last()) {
                Some(DomainFault::ReservedPackageName { package_name: labels.last() })
            } else {
                None
            },
        }
    }
}

/// Whether `label` is a Java keyword or literal.
pub fn java_keyword(label: &str) -> (r: bool)
    ensures
        r == is_java_keyword(label@),
{
    same_text(label, "abstract")
        || same_text(label, "assert")
        || same_text(label, "boolean")
        || same_text(label, "break")
        || same_text(label, "byte")
        || same_text(label, "case")
        || same_text(label, "catch")
        || same_text(label, "char")
        || same_text(label, "class")
        || same_text(label, "const")
        || same_text(label, "continue")
        || same_text(label, "default")
        || same_text(label, "do")
        || same_text(label, "double")
        || same_text(label, "else")
        || same_text(label, "enum")
        || same_text(label, "extends")
        || same_text(label, "final")
        || same_text(label, "finally")
        || same_text(label, "float")
        || same_text(label, "for")
        || same_text(label, "goto")
        || same_text(label, "if")
        || same_text(label, "implements")
        || same_text(label, "import")
        || same_text(label, "instanceof")
        || same_text(label, "int")
        || same_text(label, "interface")
        || same_text(label, "long")
        || same_text(label, "native")
        || same_text(label, "new")
        || same_text(label, "package")
        || same_text(label, "private")
        || same_text(label, "protected")
        || same_text(label, "public")
        || same_text(label, "return")
        || same_text(label, "short")
        || same_text(label, "static")
        || same_text(label, "strictfp")
        || same_text(label, "super")
        || same_text(label, "switch")
        || same_text(label, "synchronized")
        || same_text(label, "this")
        || same_text(label, "throw")
        || same_text(label, "throws")
        || same_text(label, "transient")
        || same_text(label, "try")
        || same_text(label, "void")
        || same_text(label, "volatile")
        || same_text(label, "while")
        || same_text(label, "true")
        || same_text(label, "false")
        || same_text(label, "null")
}

fn check_label(label: &String) -> (r: Result<(), DomainError>)
    ensures
        match r {
            Ok(()) => label_fault(label@) is None,
            Err(e) => label_fault(label@) == Some(e@),
        },
{
    let text = label.as_str();
    if text.unicode_len() == 0 {
        return Err(DomainError::EmptyLabel);
    }
    if java_keyword(text) {
        return Err(DomainError::ReservedKeyword { keyword: label.clone() });
    }
    if char_is_digit(text.get_char(0)) {
        return Err(DomainError::StartsWithDigit { label: label.clone() });
    }
    let bad = find_bad_chars(text);
    if bad.len() > 0 {
        return Err(DomainError::NotAsciiAlphanumeric { bad_chars: bad });
    }
    Ok(())
}

/// Checks that `domain` can be reversed into a Java package name.
pub fn check_domain_syntax(domain: &str) -> (r: Result<(), DomainError>)
    ensures
        match r {
            Ok(()) => domain_fault(domain@) is None,
            Err(e) => domain_fault(domain@) == Some(e@),
        },
{
    let n = domain.unicode_len();
    if n == 0 {
        return Err(DomainError::Empty);
    }
    if domain.get_char(0) == '.' || domain.get_char(n - 1) == '.' {
        return Err(DomainError::StartsOrEndsWithADot);
    }
    let labels = split_str(domain, '.');
    let count = labels.len();
    let mut i: usize = 0;
    while i < count
        invariant
            count == labels.len(),
            i <= count,
            labels.deep_view() == split_on(domain@, '.'),
            domain@.len() > 0,
            domain@[0] != '.',
            domain@.last() != '.',
            first_label_fault(labels.deep_view().take(i as int)) is None,
        decreases count - i,
    {
        let ghost next = labels.deep_view().take(i as int + 1);
        assert(next.drop_last() =~= labels.deep_view().take(i as int));
        assert(next.last() == labels[i as int]@);
        match check_label(&labels[i]) {
            Ok(()) => {},
            Err(e) => {
                proof {
                    lemma_first_fault_onward(labels.deep_view(), i as int + 1);
                }
                return Err(e);
            },
        }
        i = i + 1;
    }
    assert(labels.deep_view().take(count as int) =~= labels.deep_view());
    proof {
        crate::seqs::lemma_split_shape(domain@, '.');
    }
    let last = &labels[count - 1];
    let kotlin = "kotlin";
    let java = "java";
    if same_text(last.as_str(), kotlin) || same_text(last.as_str(), java) {
        return Err(DomainError::ReservedPackageName { package_name: last.clone() });
    }
    Ok(())
}

/// A fault found in the first labels is the fault of all of them.
proof fn lemma_first_fault_onward(labels: Seq<Seq<char>>, k: int)
    requires
        0 <= k <= labels.len(),
        first_label_fault(labels.take(k)) is Some,
    ensures
        first_label_fault(labels) == first_label_fault(labels.take(k)),
    decreases labels.len() - k,
{
    if k < labels.len() {
        let next = labels.take(k + 1);
        assert(next.drop_last() =~= labels.take(k));
        lemma_first_fault_onward(labels, k + 1);
    } else {
        assert(labels.take(k) =~= labels);
    }
}


/// When no label is at fault, each label passes the label rules.
proof fn lemma_no_first_fault(labels: Seq<Seq<char>>)
    requires
        first_label_fault(labels) is None,
    ensures
        forall|i: int| 0 <= i < labels.len() ==> label_fault(#[trigger] labels[i]) is None,
    decreases labels.len(),
{
    if labels.len() > 0 {
        let init = labels.drop_last();
        lemma_no_first_fault(init);
        assert forall|i: int| 0 <= i < labels.len() implies label_fault(#[trigger] labels[i]) is None by {
            if i < init.len() {
                assert(labels[i] == init[i]);
            }
        }
    }
}

/// Each label of an accepted domain passes the label rules, the last one is no
/// reserved package name, and the reversed domain splits into the same labels in the
/// opposite order.
pub proof fn lemma_accepted_domain_labels(domain: Seq<char>)
    requires
        domain_fault(domain) is None,
    ensures
        forall|i: int|
            0 <= i < split_on(domain, '.').len() ==> label_fault(#[trigger] split_on(domain, '.')[i])
                is None,
        !is_reserved_package_name(split_on(domain, '.').last()),
        split_on(reversed_domain(domain), '.') == split_on(domain, '.').reverse(),
{
    let labels = split_on(domain, '.');
    lemma_no_first_fault(labels);
    lemma_split_shape(domain, '.');
    let rev = labels.reverse();
    assert forall|i: int, j: int| 0 <= i < rev.len() && 0 <= j < rev[i].len() implies rev[i][j]
        != '.' by {
        assert(rev[i] == labels[labels.len() - 1 - i]);
    }
    lemma_split_join(rev, '.');
}

} // verus!
