//! The `app` section of a project's configuration: its name, domain and layout.
use vstd::prelude::*;

use crate::domain::{
    check_domain_syntax, domain_fault, domain_fault_text, label_fault, lemma_accepted_domain_labels,
    DomainError, DomainFault,
};
use crate::name::{self, name_fault, name_fault_text, Invalid, NameFault};
use crate::report::{Report, ReportView};
use crate::paths::{
    components, join, join_path, lemma_joined_path_under_root, lemma_plain_path_under_root, no_parent_steps, spec_under_root, strip_path_prefix, strip_prefix, under_root, is_absolute,
    NormalizationError, PathNotPrefixed,
};
use crate::seqs::{
    count_char, lemma_reversed_domain_shape, reverse_domain_str, reversed_domain, split_on,
};

verus! {

/// The name of this section in the configuration file.
pub const KEY: &'static str = "app";

/// The asset directory used when the configuration names none.
pub const DEFAULT_ASSET_DIR: &'static str = "assets";

/// The template pack used when the configuration names none.
pub const IMPLIED_TEMPLATE_PACK: &'static str = "brainstorm";

/// The template pack that new projects are given.
pub const DEFAULT_TEMPLATE_PACK: &'static str = "bevy";

/// The `app` section as it is written in the configuration file.
pub struct Raw {
    pub name: String,
    pub stylized_name: Option<String>,
    pub domain: String,
    pub asset_dir: Option<String>,
    pub template_pack: Option<String>,
}

/// A set of project templates; a simple pack is one directory of templates.
#[derive(Debug)]
pub enum Pack {
    Simple(String),
}

impl View for Pack {
    type V = Seq<char>;

    /// The directory that the pack's templates are in.
    open spec fn view(&self) -> Seq<char> {
        match self {
            Pack::Simple(dir) => dir@,
        }
    }
}

/// Why the `app` section was refused.
#[derive(Debug)]
pub enum Error {
    /// The name breaks the naming rules.
    NameInvalid(Invalid),
    /// The domain cannot be reversed into a package name.
    DomainInvalid { domain: String, cause: DomainError },
    /// The asset directory climbs above the filesystem root.
    AssetDirNormalizationFailed { asset_dir: String, cause: NormalizationError },
    /// The asset directory lies outside the app's root directory.
    AssetDirOutsideOfAppRoot { asset_dir: String, root_dir: String },
}

/// Why the `app` section was refused, as plain values.
pub enum AppFault {
    NameInvalid(NameFault),
    DomainInvalid { domain: Seq<char>, cause: DomainFault },
    AssetDirNormalizationFailed { asset_dir: Seq<char>, cause_path: Seq<char> },
    AssetDirOutsideOfAppRoot { asset_dir: Seq<char>, root_dir: Seq<char> },
}

impl View for Error {
    type V = AppFault;

    open spec fn view(&self) -> AppFault {
        match self {
            Error::NameInvalid(e) => AppFault::NameInvalid(e@),
            Error::DomainInvalid { domain, cause } => AppFault::DomainInvalid {
                domain: domain@,
                cause: cause@,
            },
            Error::AssetDirNormalizationFailed { asset_dir, cause } =>
                AppFault::AssetDirNormalizationFailed {
                asset_dir: asset_dir@,
                cause_path: cause.path@,
            },
            Error::AssetDirOutsideOfAppRoot { asset_dir, root_dir } =>
                AppFault::AssetDirOutsideOfAppRoot { asset_dir: asset_dir@, root_dir: root_dir@ },
        }
    }
}

/// The sentence that says why the `app` section was refused.
pub open spec fn app_fault_text(fault: AppFault) -> Seq<char> {
    match fault {
        AppFault::NameInvalid(cause) => "app.name invalid: "@ + name_fault_text(cause),
        AppFault::DomainInvalid { domain, cause } => "`app.domain` "@ + domain + " isn't valid: "@
            + domain_fault_text(cause),
        AppFault::AssetDirNormalizationFailed { asset_dir, cause_path } => "`app.asset-dir` "@
            + asset_dir + " couldn't be normalized: "@ + ("Path "@ + cause_path
            + " climbs above the filesystem root."@),
        AppFault::AssetDirOutsideOfAppRoot { asset_dir, root_dir } => "`app.asset-dir` "@
            + asset_dir + " is outside of the app root "@ + root_dir,
    }
}

impl Error {
    /// The sentence that says why the section was refused.
    pub fn describe(&self) -> (text: String)
        ensures
            text@ == app_fault_text(self@),
    {
        match self {
            Error::NameInvalid(cause) => {
                let mut text = "app.name invalid: ".to_owned();
                let why = cause.describe();
                text.append(why.as_str());
                text
            },
            Error::DomainInvalid { domain, cause } => {
                let mut text = "`app.domain` ".to_owned();
                text.append(domain.as_str());
                text.append(" isn't valid: ");
                let why = cause.describe();
                text.append(why.as_str());
                text
            },
            Error::AssetDirNormalizationFailed { asset_dir, cause } => {
                let mut text = "`app.asset-dir` ".to_owned();
                text.append(asset_dir.as_str());
                text.append(" couldn't be normalized: ");
                let why = cause.describe();
                text.append(why.as_str());
                text
            },
            Error::AssetDirOutsideOfAppRoot { asset_dir, root_dir } => {
                let mut text = "`app.asset-dir` ".to_owned();
                text.append(asset_dir.as_str());
                text.append(" is outside of the app root ");
                text.append(root_dir.as_str());
                text
            },
        }
    }

    /// An error report with the headline `msg` and this error as its details.
    pub fn report(&self, msg: &str) -> (r: Report)
        ensures
            r@ == (ReportView { msg: msg@, details: app_fault_text(self@) }),
    {
        let details = self.describe();
        Report::error(msg, details.as_str())
    }
}

/// An app's configuration, as plain values.
pub struct AppView {
    pub root_dir: Seq<char>,
    pub name: Seq<char>,
    pub stylized_name: Seq<char>,
    pub domain: Seq<char>,
    pub asset_dir: Seq<char>,
    pub template_pack: Seq<char>,
}

/// A checked `app` section, with the absolute root directory of the project.
#[derive(Debug)]
pub struct App {
    root_dir: String,
    name: String,
    stylized_name: String,
    domain: String,
    asset_dir: String,
    template_pack: Pack,
}

impl View for App {
    type V = AppView;

    closed spec fn view(&self) -> AppView {
        AppView {
            root_dir: self.root_dir@,
            name: self.name@,
            stylized_name: self.stylized_name@,
            domain: self.domain@,
            asset_dir: self.asset_dir@,
            template_pack: self.template_pack@,
        }
    }
}

impl Clone for App {
    fn clone(&self) -> (copy: Self)
        ensures
            copy@ == self@,
    {
        proof {
            use_type_invariant(self);
        }
        let template_pack = match &self.template_pack {
            Pack::Simple(dir) => Pack::Simple(dir.clone()),
        };
        App {
            root_dir: self.root_dir.clone(),
            name: self.name.clone(),
            stylized_name: self.stylized_name.clone(),
            domain: self.domain.clone(),
            asset_dir: self.asset_dir.clone(),
            template_pack,
        }
    }
}

/// The asset directory that a raw section asks for.
pub open spec fn raw_asset_dir(raw: Raw) -> Seq<char> {
    match raw.asset_dir {
        Some(dir) => dir@,
        None => "assets"@,
    }
}

/// The stylized name that a raw section asks for: the name itself when none is given.
pub open spec fn raw_stylized_name(raw: Raw) -> Seq<char> {
    match raw.stylized_name {
        Some(s) => s@,
        None => raw.name@,
    }
}

/// What reading a raw section under the project root `root` gives: the first of
/// these checks that fails decides the error, in this order: the name, the domain,
/// the resolution of the asset directory, and that it lies under the root.
pub open spec fn app_from_raw(root: Seq<char>, raw: Raw) -> Result<AppView, AppFault> {
    let asset_dir = raw_asset_dir(raw);
    match name_fault(raw.name@) {
        Some(f) => Err(AppFault::NameInvalid(f)),
        None => match domain_fault(raw.domain@) {
            Some(f) => Err(AppFault::DomainInvalid { domain: raw.domain@, cause: f }),
            None => match spec_under_root(asset_dir, root) {
                None => Err(
                    AppFault::AssetDirNormalizationFailed { asset_dir, cause_path: asset_dir },
                ),
                Some(false) => Err(AppFault::AssetDirOutsideOfAppRoot { asset_dir, root_dir: root }),
                Some(true) => Ok(
                    AppView {
                        root_dir: root,
                        name: raw.name@,
                        stylized_name: raw_stylized_name(raw),
                        domain: raw.domain@,
                        asset_dir,
                        template_pack: Seq::<char>::empty(),
                    },
                ),
            },
        },
    }
}

/// What every accepted configuration satisfies: an absolute root, a valid name and
/// domain, and an asset directory that resolves to a place under the root.
pub open spec fn app_valid(app: AppView) -> bool {
    &&& is_absolute(app.root_dir)
    &&& name_fault(app.name) is None
    &&& domain_fault(app.domain) is None
    &&& spec_under_root(app.asset_dir, app.root_dir) == Some(true)
}

/// A name for the text that `heck`'s snake-case conversion makes of `text`.
pub uninterp spec fn snake_case(text: Seq<char>) -> Seq<char>;

/// Calls `heck::ToSnekCase::to_snek_case` (which forwards to `to_snake_case`) on
/// `text`. The contract claims only that the result is the same for the same text;
/// how words are found and joined is left to `heck`.
#[verifier::external_body]
fn to_snek_case(text: &str) -> (r: String)
    ensures
        r@ == snake_case(text@),
{
    heck::ToSnekCase::to_snek_case(text)
}

impl App {
    #[verifier::type_invariant]
    spec fn accepted(&self) -> bool {
        app_valid(self@)
    }

    /// Checks a raw section read from the project whose root directory is `root_dir`.
    pub fn from_raw(root_dir: String, raw: Raw) -> (r: Result<App, Error>)
        requires
            is_absolute(root_dir@),
        ensures
            match r {
                Ok(app) => app_from_raw(root_dir@, raw) == Ok::<AppView, AppFault>(app@)
                    && app_valid(app@),
                Err(e) => app_from_raw(root_dir@, raw) == Err::<AppView, AppFault>(e@),
            },
    {
        let ghost raw_copy = raw;
        let Raw { name: raw_name, stylized_name: raw_stylized, domain, asset_dir: raw_asset, .. } = raw;
        let name = match name::validate(raw_name) {
            Ok(n) => n,
            Err(e) => return Err(Error::NameInvalid(e)),
        };
        let stylized_name = match raw_stylized {
            Some(s) => s,
            None => name.clone(),
        };
        match check_domain_syntax(domain.as_str()) {
            Ok(()) => {},
            Err(cause) => {
                let shown = domain.clone();
                return Err(Error::DomainInvalid { domain: shown, cause });
            },
        }
        let asset_dir = match raw_asset {
            Some(dir) => dir,
            None => {
                let dir = DEFAULT_ASSET_DIR.to_owned();
                proof {
                    reveal_strlit("assets");
                }
                dir
            },
        };
        assert(asset_dir@ == raw_asset_dir(raw_copy));
        match under_root(asset_dir.as_str(), root_dir.as_str()) {
            Ok(true) => {},
            Ok(false) => {
                return Err(Error::AssetDirOutsideOfAppRoot { asset_dir, root_dir });
            },
            Err(cause) => {
                let shown = asset_dir.clone();
                return Err(Error::AssetDirNormalizationFailed { asset_dir: shown, cause });
            },
        }
        let template_pack = Pack::Simple(String::new());
        Ok(App { root_dir, name, stylized_name, domain, asset_dir, template_pack })
    }

    /// The project's root directory.
    pub fn root_dir(&self) -> (r: &str)
        ensures
            r@ == self@.root_dir,
            is_absolute(r@),
    {
        proof {
            use_type_invariant(self);
        }
        self.root_dir.as_str()
    }

    /// `path` taken relative to the project's root directory.
    pub fn prefix_path(&self, path: &str) -> (r: String)
        ensures
            r@ == join_path(self@.root_dir, path@),
    {
        join(self.root_dir.as_str(), path)
    }

    /// `path` with the project's root directory taken off its front.
    pub fn unprefix_path(&self, path: &str) -> (r: Result<String, PathNotPrefixed>)
        ensures
            match r {
                Ok(rest) => strip_prefix(path@, self@.root_dir) == Some(rest@),
                Err(e) => strip_prefix(path@, self@.root_dir) is None && e.path@ == path@
                    && e.prefix@ == self@.root_dir,
            },
    {
        strip_path_prefix(path, self.root_dir.as_str())
    }

    /// The app's name.
    pub fn name(&self) -> (r: &str)
        ensures
            r@ == self@.name,
            name_fault(r@) is None,
    {
        proof {
            use_type_invariant(self);
        }
        self.name.as_str()
    }

    /// The app's domain, as it was configured.
    pub fn domain(&self) -> (r: &str)
        ensures
            r@ == self@.domain,
            domain_fault(r@) is None,
    {
        proof {
            use_type_invariant(self);
        }
        self.domain.as_str()
    }

    /// The asset directory as it was configured, relative to the root directory.
    pub fn configured_asset_dir(&self) -> (r: &str)
        ensures
            r@ == self@.asset_dir,
    {
        self.asset_dir.as_str()
    }

    /// The app's name in snake case, as a library or module name.
    pub fn name_snake(&self) -> (r: String)
        ensures
            r@ == snake_case(self@.name),
    {
        to_snek_case(self.name.as_str())
    }

    /// The app's name as it is shown to people.
    pub fn stylized_name(&self) -> (r: &str)
        ensures
            r@ == self@.stylized_name,
    {
        self.stylized_name.as_str()
    }

    /// The app's domain with its labels in the opposite order, as a package name.
    pub fn reverse_domain(&self) -> (r: String)
        ensures
            r@ == reversed_domain(self@.domain),
            r@.len() == self@.domain.len(),
            count_char(r@, '.') == count_char(self@.domain, '.'),
            split_on(r@, '.') == split_on(self@.domain, '.').reverse(),
            forall|i: int|
                0 <= i < split_on(r@, '.').len() ==> label_fault(#[trigger] split_on(r@, '.')[i])
                    is None,
    {
        proof {
            use_type_invariant(self);
            lemma_accepted_domain_labels(self@.domain);
            lemma_reversed_domain_shape(self@.domain);
            let labels = split_on(self@.domain, '.');
            assert forall|i: int| 0 <= i < labels.reverse().len() implies label_fault(
                #[trigger] labels.reverse()[i],
            ) is None by {
                assert(labels.reverse()[i] == labels[labels.len() - 1 - i]);
            }
        }
        reverse_domain_str(self.domain.as_str())
    }

    /// The path of the project's `Cargo.toml`.
    pub fn manifest_path(&self) -> (r: String)
        ensures
            r@ == join_path(self@.root_dir, "Cargo.toml"@),
    {
        join(self.root_dir.as_str(), "Cargo.toml")
    }

    /// The path of the app's asset directory.
    pub fn asset_dir(&self) -> (r: String)
        ensures
            r@ == join_path(self@.root_dir, self@.asset_dir),
    {
        join(self.root_dir.as_str(), self.asset_dir.as_str())
    }

    /// The template pack that the app was set up with.
    pub fn template_pack(&self) -> (r: &Pack)
        ensures
            r@ == self@.template_pack,
    {
        &self.template_pack
    }
}


/// A configuration with a valid name and domain, under an absolute root without
/// `..`, is accepted whenever its asset directory is a relative path without `..`;
/// the app keeps the name, domain and asset directory as configured.
pub proof fn lemma_from_raw_accepts(root: Seq<char>, raw: Raw)
    requires
        is_absolute(root),
        no_parent_steps(components(root)),
        name_fault(raw.name@) is None,
        domain_fault(raw.domain@) is None,
        !is_absolute(raw_asset_dir(raw)),
        no_parent_steps(components(raw_asset_dir(raw))),
    ensures
        app_from_raw(root, raw) matches Ok(app) && app.name == raw.name@ && app.domain
            == raw.domain@ && app.asset_dir == raw_asset_dir(raw) && app.root_dir == root,
{
    lemma_plain_path_under_root(raw_asset_dir(raw), root);
}


/// Leaving the asset directory out and naming the default `assets` give the same
/// outcome.
pub proof fn lemma_default_asset_dir(root: Seq<char>, raw: Raw, named: Raw)
    requires
        raw.asset_dir is None,
        named.asset_dir matches Some(dir) && dir@ == "assets"@,
        named.name == raw.name,
        named.stylized_name == raw.stylized_name,
        named.domain == raw.domain,
        named.template_pack == raw.template_pack,
    ensures
        app_from_raw(root, raw) == app_from_raw(root, named),
{
}

/// The template pack that a section names does not change the outcome: the app is
/// given the simple pack whatever it names, or the same error.
pub proof fn lemma_template_pack_ignored(root: Seq<char>, raw: Raw, other: Raw)
    requires
        other.name == raw.name,
        other.stylized_name == raw.stylized_name,
        other.domain == raw.domain,
        other.asset_dir == raw.asset_dir,
    ensures
        app_from_raw(root, raw) == app_from_raw(root, other),
{
}


/// An absolute asset directory inside the root (the root joined with a relative path
/// without `..`) is accepted, under an absolute root without `..`, whenever the name
/// and domain are valid; the app keeps that directory.
pub proof fn lemma_from_raw_accepts_absolute_asset_dir(root: Seq<char>, rel: Seq<char>, raw: Raw)
    requires
        is_absolute(root),
        no_parent_steps(components(root)),
        !is_absolute(rel),
        no_parent_steps(components(rel)),
        name_fault(raw.name@) is None,
        domain_fault(raw.domain@) is None,
        raw_asset_dir(raw) == join_path(root, rel),
    ensures
        app_from_raw(root, raw) matches Ok(app) && app.asset_dir == join_path(root, rel)
            && app.root_dir == root && app.name == raw.name@ && app.domain == raw.domain@,
{
    lemma_joined_path_under_root(root, rel);
}

} // verus!
