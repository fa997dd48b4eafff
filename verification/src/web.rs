//! Request-facing helpers around the engine: pagination, form data and the
//! small rendering utilities pages are built from. These carry no protocol
//! logic; the transport and template layers hand values in and out.

use crate::model::{Like, Reshare, Role};
use crate::signing::push_char;
use crate::store::Store;
use vstd::prelude::*;

verus! {

/// How many items one page shows.
pub const ITEMS_PER_PAGE: i32 = 12;

/// A page number, starting at 1.
pub struct Page(pub i32);

impl Page {
    /// Computes the total number of pages needed to display n_items.
    pub fn total(n_items: i32) -> (r: i32)
        requires
            0 <= n_items,
        ensures
            r == if n_items % ITEMS_PER_PAGE == 0 {
                n_items / ITEMS_PER_PAGE
            } else {
                n_items / ITEMS_PER_PAGE + 1
            },
    {
        if n_items % ITEMS_PER_PAGE == 0 {
            n_items / ITEMS_PER_PAGE
        } else {
            (n_items / ITEMS_PER_PAGE) + 1
        }
    }

    /// The half-open item range this page covers.
    pub fn limits(self) -> (r: (i32, i32))
        requires
            1 <= self.0 <= i32::MAX / ITEMS_PER_PAGE,
        ensures
            r.0 == (self.0 - 1) * ITEMS_PER_PAGE,
            r.1 == self.0 * ITEMS_PER_PAGE,
    {
        ((self.0 - 1) * ITEMS_PER_PAGE, self.0 * ITEMS_PER_PAGE)
    }
}

impl Default for Page {
    /// The first page.
    fn default() -> (r: Page)
        ensures
            r.0 == 1,
    {
        Page(1)
    }
}

impl From<i32> for Page {
    fn from(page: i32) -> (r: Page) {
        Page(page)
    }
}

impl vstd::std_specs::convert::FromSpecImpl<i32> for Page {
    open spec fn obeys_from_spec() -> bool {
        true
    }

    open spec fn from_spec(page: i32) -> Page {
        Page(page)
    }
}

/// The configured request-size limit for forms.
pub struct ContentLen(pub u64);

/// A form for remote interaction, used by multiple routes.
pub struct RemoteForm {
    pub remote: String,
}

/// An avatar rendering size.
pub enum Size {
    Small,
    Medium,
}

impl Size {
    pub fn as_str(&self) -> (r: &'static str)
        ensures
            match self {
                Size::Small => r@ == "small"@,
                Size::Medium => r@ == "medium"@,
            },
    {
        match self {
            Size::Small => "small",
            Size::Medium => "medium",
        }
    }
}

/// The avatar URL to show: the actor's own, or the bundled default.
pub fn default_avatar(avatar_url: &Option<String>) -> (r: &str)
    ensures
        match avatar_url {
            Some(url) => r@ == url@,
            None => r@ == "/static/images/default-avatar.png"@,
        },
{
    match avatar_url {
        Some(url) => url.as_str(),
        None => "/static/images/default-avatar.png",
    }
}

/// One tab link: target, title, and whether it is the selected one.
pub open spec fn spec_tab(url: Seq<char>, title: Seq<char>, selected: bool) -> Seq<char> {
    "<a dir=\"auto\" href=\""@ + url + (if selected {
        "\" class=\"selected\">"@
    } else {
        "\">"@
    }) + title + "</a>"@
}

/// The markup of a whole tab bar.
pub open spec fn spec_tabs(links: Seq<(String, String, bool)>) -> Seq<char>
    decreases links.len(),
{
    if links.len() == 0 {
        Seq::<char>::empty()
    } else {
        spec_tabs(links.drop_last()) + spec_tab(
            links.last().0@,
            links.last().1@,
            links.last().2,
        )
    }
}

/// Render a tab bar from (url, title, selected) triples.
pub fn tabs(links: &Vec<(String, String, bool)>) -> (r: String)
    ensures
        r@ == "<div class=\"tabs\">"@ + spec_tabs(links@) + "</div>"@,
{
    let mut res = String::from_str("<div class=\"tabs\">");
    let mut i: usize = 0;
    proof {
        assert(links@.take(0) =~= Seq::<(String, String, bool)>::empty());
    }
    while i < links.len()
        invariant
            i <= links@.len(),
            res@ == "<div class=\"tabs\">"@ + spec_tabs(links@.take(i as int)),
        decreases links@.len() - i,
    {
        res.append("<a dir=\"auto\" href=\"");
        res.append(links[i].0.as_str());
        if links[i].2 {
            res.append("\" class=\"selected\">");
        } else {
            res.append("\">");
        }
        res.append(links[i].1.as_str());
        res.append("</a>");
        proof {
            assert(links@.take(i + 1).drop_last() =~= links@.take(i as int));
            assert(links@.take(i + 1).last() == links@[i as int]);
            assert(res@ =~= "<div class=\"tabs\">"@ + spec_tabs(links@.take(i + 1)));
        }
        i += 1;
    }
    res.append("</div>");
    proof {
        assert(links@.take(links@.len() as int) =~= links@);
        assert(res@ =~= "<div class=\"tabs\">"@ + spec_tabs(links@) + "</div>"@);
    }
    res
}

/// How one character of a query parameter is encoded: a plus sign becomes
/// its escape, a space becomes a plus sign, anything else stays.
pub open spec fn enc_char(c: char) -> Seq<char> {
    if c == '+' {
        "%2B"@
    } else if c == ' ' {
        seq!['+']
    } else {
        seq![c]
    }
}

/// The encoded form of a query parameter.
pub open spec fn spec_encode_query(s: Seq<char>) -> Seq<char>
    decreases s.len(),
{
    if s.len() == 0 {
        Seq::<char>::empty()
    } else {
        spec_encode_query(s.drop_last()) + enc_char(s.last())
    }
}

/// Encode a value for use as a query parameter.
pub fn encode_query_param(param: &str) -> (r: String)
    ensures
        r@ == spec_encode_query(param@),
{
    let n = param.unicode_len();
    let mut r = String::new();
    let mut i: usize = 0;
    proof {
        assert(param@.take(0) =~= Seq::<char>::empty());
    }
    while i < n
        invariant
            n == param@.len(),
            i <= n,
            r@ == spec_encode_query(param@.take(i as int)),
        decreases n - i,
    {
        let c = param.get_char(i);
        if c == '+' {
            r.append("%2B");
            proof {
                reveal_strlit("%2B");
            }
        } else if c == ' ' {
            r.append("+");
            proof {
                reveal_strlit("+");
                assert("+"@ =~= seq!['+']);
            }
        } else {
            push_char(&mut r, c);
        }
        proof {
            assert(param@.take(i + 1).drop_last() =~= param@.take(i as int));
            assert(param@.take(i + 1).last() == param@[i as int]);
            assert(r@ =~= spec_encode_query(param@.take(i + 1)));
        }
        i += 1;
    }
    proof {
        assert(param@.take(n as int) =~= param@);
    }
    r
}

/// A builder type to generate input fields in a type-safe way.
pub struct Input {
    /// The name of the input.
    pub name: String,
    /// The description of this field.
    pub label: String,
    /// The kind of the input (text, email, password and the like).
    pub input_type: String,
    /// The default value for this input field.
    pub default: Option<String>,
    /// True if this field is not required.
    pub optional: bool,
    /// A small message to display next to the label.
    pub details: Option<String>,
    /// Additional markup properties, each key once.
    pub props: Vec<(String, String)>,
    /// The error message to show next to this field.
    pub error: Option<String>,
}

impl Input {
    /// Property keys are unique.
    pub open spec fn wf(self) -> bool {
        forall|i: int, j: int|
            0 <= i < j < self.props@.len() ==> (#[trigger] self.props@[i]).0@
                != (#[trigger] self.props@[j]).0@
    }

    /// Creates a new input with a given name.
    pub fn new(name: String, label: String) -> (r: Input)
        ensures
            r.wf(),
            r.name == name,
            r.label == label,
            r.input_type@ == "text"@,
            r.default is None,
            r.optional == false,
            r.details is None,
            r.props@.len() == 0,
            r.error is None,
    {
        Input {
            name,
            label,
            input_type: String::from_str("text"),
            default: None,
            optional: false,
            details: None,
            props: Vec::new(),
            error: None,
        }
    }

    /// Set the kind of this input.
    pub fn input_type(self, t: String) -> (r: Input)
        requires
            self.wf(),
        ensures
            r.wf(),
            r == (Input { input_type: t, ..self }),
    {
        Input { input_type: t, ..self }
    }

    /// Marks this field as optional.
    pub fn optional(self) -> (r: Input)
        requires
            self.wf(),
        ensures
            r.wf(),
            r == (Input { optional: true, ..self }),
    {
        Input { optional: true, ..self }
    }

    /// Fills the input with a default value, as edition forms do to show
    /// the current one.
    pub fn default(self, val: String) -> (r: Input)
        requires
            self.wf(),
        ensures
            r.wf(),
            r == (Input { default: Some(val), ..self }),
    {
        Input { default: Some(val), ..self }
    }

    /// Adds additional information next to the label.
    pub fn details(self, text: String) -> (r: Input)
        requires
            self.wf(),
        ensures
            r.wf(),
            r == (Input { details: Some(text), ..self }),
    {
        Input { details: Some(text), ..self }
    }

    /// Defines an additional markup property; setting the same key again
    /// replaces its value. May be called multiple times for one input.
    pub fn set_prop(self, key: String, val: String) -> (r: Input)
        requires
            self.wf(),
        ensures
            r.wf(),
            r.name == self.name,
            r.label == self.label,
            r.input_type == self.input_type,
            r.default == self.default,
            r.optional == self.optional,
            r.details == self.details,
            r.error == self.error,
            exists|i: int|
                0 <= i < r.props@.len() && (#[trigger] r.props@[i]).0@ == key@ && r.props@[i].1@
                    == val@,
    {
        let mut this = self;
        let mut i: usize = 0;
        while i < this.props.len()
            invariant
                this.wf(),
                i <= this.props@.len(),
                this.name == self.name,
                this.label == self.label,
                this.input_type == self.input_type,
                this.default == self.default,
                this.optional == self.optional,
                this.details == self.details,
                this.error == self.error,
                forall|j: int| 0 <= j < i ==> (#[trigger] this.props@[j]).0@ != key@,
            decreases this.props@.len() - i,
        {
            if this.props[i].0.eq(&key) {
                let ghost pre = this.props@;
                this.props.set(i, (key, val));
                proof {
                    assert((this.props@[i as int]).0@ == key@);
                    assert forall|a: int, b: int|
                        0 <= a < b < this.props@.len() implies (#[trigger] this.props@[a]).0@
                        != (#[trigger] this.props@[b]).0@ by {
                        assert(pre[a].0@ != pre[b].0@);
                        if a != i {
                            assert(this.props@[a] == pre[a]);
                        }
                        if b != i {
                            assert(this.props@[b] == pre[b]);
                        }
                        assert(pre[i as int].0@ == key@);
                    }
                }
                return this;
            }
            i += 1;
        }
        let ghost pre = this.props@;
        this.props.push((key, val));
        proof {
            assert((this.props@[this.props@.len() - 1]).0@ == key@);
            assert forall|a: int, b: int|
                0 <= a < b < this.props@.len() implies (#[trigger] this.props@[a]).0@
                != (#[trigger] this.props@[b]).0@ by {
                if b < pre.len() {
                    assert(pre[a].0@ != pre[b].0@);
                } else {
                    assert(this.props@[a] == pre[a]);
                }
            }
        }
        this
    }
}

/// A page rendering, as raw bytes.
pub struct Ructe(pub Vec<u8>);

/// The byte sequence marking an embedded form.
pub open spec fn form_marker() -> Seq<u8> {
    seq!['<' as u8, 'f' as u8, 'o' as u8, 'r' as u8, 'm' as u8, ' ' as u8]
}

impl Ructe {
    /// Whether the rendering embeds a form, in which case it is never
    /// served from a cache.
    pub fn has_form_tag(&self) -> (r: bool)
        ensures
            r == exists|i: int|
                0 <= i <= self.0@.len() - 6 && #[trigger] self.0@.subrange(i, i + 6)
                    == form_marker(),
    {
        if self.0.len() < 6 {
            proof {
                assert forall|i: int| 0 <= i <= self.0@.len() - 6 implies #[trigger] self.0@.subrange(
                    i,
                    i + 6,
                ) != form_marker() by {}
            }
            return false;
        }
        let n = self.0.len();
        let mut i: usize = 0;
        while i <= n - 6
            invariant
                n == self.0@.len(),
                6 <= n,
                i <= n - 5,
                forall|j: int| 0 <= j < i ==> #[trigger] self.0@.subrange(j, j + 6) != form_marker(),
            decreases n - i,
        {
            if self.0[i] == 60 && self.0[i + 1] == 102 && self.0[i + 2] == 111 && self.0[i + 3]
                == 114 && self.0[i + 4] == 109 && self.0[i + 5] == 32 {
                proof {
                    assert(self.0@.subrange(i as int, i + 6) =~= form_marker());
                }
                return true;
            }
            proof {
                if self.0@.subrange(i as int, i + 6) == form_marker() {
                    assert(self.0@.subrange(i as int, i + 6)[0] == 60);
                    assert(self.0@[i as int] == 60);
                    assert(self.0@.subrange(i as int, i + 6)[1] == 102);
                    assert(self.0@[i + 1] == 102);
                    assert(self.0@[i + 2] == 111);
                    assert(self.0@[i + 3] == 114);
                    assert(self.0@[i + 4] == 109);
                    assert(self.0@[i + 5] == 32);
                }
            }
            i += 1;
        }
        false
    }
}

/// The login form.
pub struct LoginForm {
    pub email_or_name: String,
    pub password: String,
}

/// A pending password-reset request.
pub struct ResetRequest {
    pub mail: String,
    pub id: String,
    pub creation_date: u64,
}

impl PartialEq for ResetRequest {
    /// Two requests are the same exactly when their tokens are.
    fn eq(&self, other: &Self) -> (r: bool) {
        self.id.eq(&other.id)
    }
}

impl vstd::std_specs::cmp::PartialEqSpecImpl for ResetRequest {
    open spec fn obeys_eq_spec() -> bool {
        true
    }

    open spec fn eq_spec(&self, other: &ResetRequest) -> bool {
        self.id@ == other.id@
    }
}

/// The form asking for a password reset.
pub struct ResetForm {
    pub email: String,
}

/// The form carrying the new password.
pub struct NewPasswordForm {
    pub password: String,
    pub password_confirmation: String,
}

impl NewPasswordForm {
    /// Both password fields agree.
    pub fn passwords_match(&self) -> (r: bool)
        ensures
            r == (self.password@ == self.password_confirmation@),
    {
        self.password.eq(&self.password_confirmation)
    }
}

/// The comment form.
pub struct NewCommentForm {
    pub responding_to: Option<u64>,
    pub content: String,
    pub warning: String,
}

/// The article edition form.
pub struct NewPostForm {
    pub title: String,
    pub subtitle: String,
    pub content: String,
    pub tags: String,
    pub license: String,
    pub draft: bool,
    pub cover: Option<u64>,
}

/// The instance settings form.
pub struct InstanceSettingsForm {
    pub name: String,
    pub open_registrations: bool,
    pub short_description: String,
    pub long_description: String,
    pub default_license: String,
}

/// Rows to remove from the email blocklist.
pub struct BlocklistEmailDeletion {
    pub ids: Vec<u64>,
}

/// A form listing items an action is applied to.
pub struct MultiAction {
    pub ids: Vec<u64>,
    pub action: UserActions,
}

/// The actions the user list offers.
pub enum UserActions {
    Admin,
    RevokeAdmin,
    Moderator,
    RevokeModerator,
    Ban,
}

/// Read a user action from its form value, exactly the five spellings the
/// list form submits.
pub fn parse_user_action(s: &str) -> (r: Result<UserActions, ()>)
    ensures
        match r {
            Ok(UserActions::Admin) => s@ == "admin"@,
            Ok(UserActions::RevokeAdmin) => s@ == "un-admin"@,
            Ok(UserActions::Moderator) => s@ == "moderator"@,
            Ok(UserActions::RevokeModerator) => s@ == "un-moderator"@,
            Ok(UserActions::Ban) => s@ == "ban"@,
            Err(_) => s@ != "admin"@ && s@ != "un-admin"@ && s@ != "moderator"@ && s@
                != "un-moderator"@ && s@ != "ban"@,
        },
{
    let owned = s.to_owned();
    if owned.eq(&<String as vstd::string::StringExecFns>::from_str("admin")) {
        Ok(UserActions::Admin)
    } else if owned.eq(&<String as vstd::string::StringExecFns>::from_str("un-admin")) {
        Ok(UserActions::RevokeAdmin)
    } else if owned.eq(&<String as vstd::string::StringExecFns>::from_str("moderator")) {
        Ok(UserActions::Moderator)
    } else if owned.eq(&<String as vstd::string::StringExecFns>::from_str("un-moderator")) {
        Ok(UserActions::RevokeModerator)
    } else if owned.eq(&<String as vstd::string::StringExecFns>::from_str("ban")) {
        Ok(UserActions::Ban)
    } else {
        Err(())
    }
}

impl core::str::FromStr for UserActions {
    type Err = ();

    fn from_str(s: &str) -> Result<Self, Self::Err> {
        parse_user_action(s)
    }
}

/// Wrapper around an account reserved to admins.
pub struct Admin(pub crate::model::Actor);

/// Same as `Admin`, for pages moderators may also see.
pub struct InclusiveAdmin(pub crate::model::Actor);

/// Same as `Admin`, for moderators.
pub struct Moderator(pub crate::model::Actor);

/// The error a failed page responds with.
pub struct ErrorPage(pub crate::errors::Error);

impl From<crate::errors::Error> for ErrorPage {
    fn from(err: crate::errors::Error) -> (r: ErrorPage) {
        ErrorPage(err)
    }
}

impl vstd::std_specs::convert::FromSpecImpl<crate::errors::Error> for ErrorPage {
    open spec fn obeys_from_spec() -> bool {
        true
    }

    open spec fn from_spec(err: crate::errors::Error) -> ErrorPage {
        ErrorPage(err)
    }
}

/// Fields of an API token about to be inserted.
pub struct NewApiToken {
    pub value: String,
    pub scopes: String,
    pub app_id: u64,
    pub user_id: u64,
}

/// A stored API token with its `+`-separated scope grants.
pub struct ApiToken {
    pub id: u64,
    pub creation_date: u64,
    pub value: String,
    /// Scopes, separated by plus signs. Global scopes are read and write,
    /// and both can be limited to an endpoint with a colon suffix.
    pub scopes: String,
    pub app_id: u64,
    pub user_id: u64,
}

/// Whether a pattern may stand as one scope grant.
pub open spec fn plus_free(s: Seq<char>) -> bool {
    forall|i: int| 0 <= i < s.len() ==> s[i] != '+'
}

/// Whether `pat` occurs as one whole `+`-separated segment of `s`.
pub open spec fn seg_match_at(s: Seq<char>, pat: Seq<char>, i: int) -> bool {
    &&& 0 <= i
    &&& i + pat.len() <= s.len()
    &&& s.subrange(i, i + pat.len()) == pat
    &&& (i == 0 || s[i - 1] == '+')
    &&& (i + pat.len() == s.len() || s[i + pat.len()] == '+')
}

/// Whether some `+`-separated segment of `s` is exactly `pat`.
pub open spec fn has_scope_segment(s: Seq<char>, pat: Seq<char>) -> bool {
    exists|i: int| #[trigger] seg_match_at(s, pat, i)
}

/// Index of the first plus sign at or after `k`, or the length.
pub open spec fn find_plus_from(s: Seq<char>, k: int) -> int
    decreases s.len() - k
        when 0 <= k <= s.len()
{
    if k >= s.len() {
        s.len() as int
    } else if s[k] == '+' {
        k
    } else {
        find_plus_from(s, k + 1)
    }
}

proof fn lemma_find_plus(s: Seq<char>, k: int)
    requires
        0 <= k <= s.len(),
    ensures
        k <= find_plus_from(s, k) <= s.len(),
        find_plus_from(s, k) < s.len() ==> s[find_plus_from(s, k)] == '+',
        forall|j: int| k <= j < find_plus_from(s, k) ==> s[j] != '+',
    decreases s.len() - k,
{
    if k < s.len() && s[k] != '+' {
        lemma_find_plus(s, k + 1);
    }
}

/// Compare a range of a string against a pattern.
fn range_matches(s: &str, from: usize, to: usize, pat: &String) -> (r: bool)
    requires
        from <= to <= s@.len(),
    ensures
        r == (s@.subrange(from as int, to as int) == pat@),
{
    let m = pat.as_str().unicode_len();
    if to - from != m {
        proof {
            if s@.subrange(from as int, to as int) == pat@ {
                assert(s@.subrange(from as int, to as int).len() == pat@.len());
            }
        }
        return false;
    }
    let mut i: usize = 0;
    while i < m
        invariant
            from <= to <= s@.len(),
            m == pat@.len(),
            to - from == m,
            i <= m,
            forall|j: int| 0 <= j < i ==> s@[from + j] == pat@[j],
        decreases m - i,
    {
        if s.get_char(from + i) != pat.as_str().get_char(i) {
            proof {
                if s@.subrange(from as int, to as int) == pat@ {
                    assert(s@.subrange(from as int, to as int)[i as int] == pat@[i as int]);
                    assert(s@[from + i] == pat@[i as int]);
                }
            }
            return false;
        }
        i += 1;
    }
    proof {
        assert(s@.subrange(from as int, to as int) =~= pat@);
    }
    true
}

impl ApiToken {
    /// Whether the token grants `what` globally, or `what` limited to
    /// exactly this endpoint `scope`: one of its `+`-separated segments is
    /// `what` or `what:scope`.
    pub fn can(&self, what: &str, scope: &str) -> (r: bool)
        requires
            plus_free(what@),
            plus_free(scope@),
        ensures
            r == (has_scope_segment(self.scopes@, what@) || has_scope_segment(
                self.scopes@,
                what@ + ":"@ + scope@,
            )),
    {
        let mut full = what.to_owned();
        full.append(":");
        full.append(scope);
        proof {
            reveal_strlit(":");
            assert(full@ == what@ + ":"@ + scope@);
            assert forall|i: int| 0 <= i < full@.len() implies full@[i] != '+' by {
                if i < what@.len() {
                    assert(full@[i] == what@[i]);
                } else if i == what@.len() {
                    assert(full@[i] == ':');
                } else {
                    assert(full@[i] == scope@[i - what@.len() - 1]);
                }
            }
        }
        let what_string = what.to_owned();
        let sc = self.scopes.as_str();
        let n = sc.unicode_len();
        let mut start: usize = 0;
        proof {
            lemma_find_plus(sc@, 0);
        }
        loop
            invariant
                sc@ == self.scopes@,
                n == sc@.len(),
                start <= n,
                start == 0 || (start >= 1 && sc@[start - 1] == '+'),
                what_string@ == what@,
                full@ == what@ + ":"@ + scope@,
                plus_free(what_string@),
                plus_free(full@),
                forall|i: int|
                    0 <= i < start ==> !seg_match_at(sc@, what_string@, i) && !seg_match_at(
                        sc@,
                        full@,
                        i,
                    ),
            decreases n + 1 - start,
        {
            let end = find_plus(sc, start);
            if range_matches(sc, start, end, &what_string) {
                proof {
                    lemma_find_plus(sc@, start as int);
                    assert(seg_match_at(sc@, what_string@, start as int));
                }
                return true;
            }
            if range_matches(sc, start, end, &full) {
                proof {
                    lemma_find_plus(sc@, start as int);
                    assert(seg_match_at(sc@, full@, start as int));
                }
                return true;
            }
            proof {
                lemma_find_plus(sc@, start as int);
                assert forall|i: int| 0 <= i < end + 1 implies !seg_match_at(sc@, what_string@, i)
                    && !seg_match_at(sc@, full@, i) by {
                    if start <= i {
                        lemma_no_segment_inside(sc@, what_string@, start as int, end as int, i);
                        lemma_no_segment_inside(sc@, full@, start as int, end as int, i);
                    }
                }
            }
            if end >= n {
                proof {
                    assert forall|i: int| !seg_match_at(sc@, what_string@, i) && !seg_match_at(
                        sc@,
                        full@,
                        i,
                    ) by {
                        if 0 <= i < n + 1 {
                        } else {
                            if seg_match_at(sc@, what_string@, i) || seg_match_at(sc@, full@, i) {
                                assert(0 <= i && i <= sc@.len());
                            }
                        }
                    }
                }
                return false;
            }
            start = end + 1;
        }
    }

    pub fn can_read(&self, scope: &str) -> (r: bool)
        requires
            plus_free(scope@),
        ensures
            r == (has_scope_segment(self.scopes@, "read"@) || has_scope_segment(
                self.scopes@,
                "read"@ + ":"@ + scope@,
            )),
    {
        proof {
            reveal_strlit("read");
        }
        self.can("read", scope)
    }

    pub fn can_write(&self, scope: &str) -> (r: bool)
        requires
            plus_free(scope@),
        ensures
            r == (has_scope_segment(self.scopes@, "write"@) || has_scope_segment(
                self.scopes@,
                "write"@ + ":"@ + scope@,
            )),
    {
        proof {
            reveal_strlit("write");
        }
        self.can("write", scope)
    }
}

/// Inside a scanned segment, no pattern free of plus signs can stand as a
/// whole segment: the scanned segment itself was already compared.
proof fn lemma_no_segment_inside(s: Seq<char>, pat: Seq<char>, start: int, end: int, i: int)
    requires
        0 <= start <= end <= s.len(),
        start <= i < end + 1,
        plus_free(pat),
        forall|j: int| start <= j < end ==> s[j] != '+',
        end < s.len() ==> s[end] == '+',
        s.subrange(start, end) != pat,
    ensures
        !seg_match_at(s, pat, i),
{
    if seg_match_at(s, pat, i) {
        if i > start {
            assert(s[i - 1] == '+');
            assert(i - 1 >= start && i - 1 < end || i - 1 >= end);
            assert(i <= end);
            if i - 1 < end {
                assert(false);
            } else {
                assert(i == end + 1);
                assert(false);
            }
        }
        assert(i == start);
        if i + pat.len() < end {
            assert(s[i + pat.len()] == '+');
            assert(false);
        }
        if i + pat.len() > end {
            assert(end < s.len());
            assert(end - i < pat.len());
            assert(pat[end - i] == s.subrange(i, i + pat.len() as int)[end - i]);
            assert(pat[end - i] == s[end]);
            assert(s[end] == '+');
            assert(false);
        }
        assert(i + pat.len() == end);
        assert(s.subrange(start, end) == pat);
        assert(false);
    }
}

/// Find the next plus sign at or after `k`.
fn find_plus(s: &str, k: usize) -> (r: usize)
    requires
        k <= s@.len(),
    ensures
        r == find_plus_from(s@, k as int),
        k <= r <= s@.len(),
{
    let n = s.unicode_len();
    let mut e = k;
    while e < n
        invariant
            n == s@.len(),
            k <= e <= n,
            find_plus_from(s@, k as int) == find_plus_from(s@, e as int),
        decreases n - e,
    {
        if s.get_char(e) == '+' {
            return e;
        }
        e += 1;
    }
    e
}

/// Why extracting an API token from a request failed.
pub enum TokenError {
    /// The authorization header was not present.
    NoHeader,
    /// The type of the token was not specified.
    NoType,
    /// No value was provided.
    NoValue,
    /// The token metadata could not be read back.
    DbError,
}

/// How many likes a table holds for a post.
pub open spec fn spec_count_likes(likes: Seq<Like>, post_id: u64) -> nat
    decreases likes.len(),
{
    if likes.len() == 0 {
        0
    } else {
        spec_count_likes(likes.drop_last(), post_id) + if likes.last().post_id == post_id {
            1nat
        } else {
            0nat
        }
    }
}

/// How many reshares a table holds for a post.
pub open spec fn spec_count_reshares(reshares: Seq<Reshare>, post_id: u64) -> nat
    decreases reshares.len(),
{
    if reshares.len() == 0 {
        0
    } else {
        spec_count_reshares(reshares.drop_last(), post_id) + if reshares.last().post_id == post_id {
            1nat
        } else {
            0nat
        }
    }
}

/// What a post card shows: the post's fields with its attribution and its
/// reaction counts.
pub struct PostCard {
    pub post_id: u64,
    pub uri: String,
    pub title: String,
    pub content: String,
    pub author_id: Option<u64>,
    pub is_author: bool,
    pub count_likes: usize,
    pub count_reshares: usize,
}

/// Everything a card of the given post shows, for the given viewer: the
/// post's fields, whether the viewer authored it, the exact reaction
/// counts, and an author when the post has any.
pub open spec fn post_card_matches(
    s: Store,
    post_idx: int,
    viewer: Option<u64>,
    card: PostCard,
) -> bool {
    &&& card.post_id == s.posts@[post_idx].id
    &&& card.uri@ == s.posts@[post_idx].uri@
    &&& card.title@ == s.posts@[post_idx].title@
    &&& card.content@ == s.posts@[post_idx].content@
    &&& card.is_author == match viewer {
        Some(v) => s.has_post_author(s.posts@[post_idx].id, v),
        None => false,
    }
    &&& card.count_likes == spec_count_likes(s.likes@, s.posts@[post_idx].id)
    &&& card.count_reshares == spec_count_reshares(s.reshares@, s.posts@[post_idx].id)
    &&& match card.author_id {
        Some(a) => s.has_post_author(s.posts@[post_idx].id, a),
        None => forall|a: u64| !s.has_post_author(s.posts@[post_idx].id, a),
    }
}

impl PostCard {
    /// Assemble the card of one post, for an optional viewing account.
    pub fn from(s: &Store, post_idx: usize, viewer: &Option<u64>) -> (r: PostCard)
        requires
            s.wf(),
            post_idx < s.posts@.len(),
        ensures
            post_card_matches(*s, post_idx as int, *viewer, r),
    {
        let post_id = s.posts[post_idx].id;
        let is_author = match viewer {
            Some(v) => s.is_author(post_id, *v),
            None => false,
        };
        let author_id: Option<u64> = crate::inbox::find_an_author(s, post_id);
        let mut count_likes: usize = 0;
        let mut k: usize = 0;
        proof {
            assert(s.likes@.take(0) =~= Seq::<Like>::empty());
        }
        while k < s.likes.len()
            invariant
                k <= s.likes@.len(),
                count_likes == spec_count_likes(s.likes@.take(k as int), post_id),
                count_likes <= k,
            decreases s.likes@.len() - k,
        {
            proof {
                assert(s.likes@.take(k + 1).drop_last() =~= s.likes@.take(k as int));
                assert(s.likes@.take(k + 1).last() == s.likes@[k as int]);
            }
            if s.likes[k].post_id == post_id {
                count_likes = count_likes + 1;
            }
            k += 1;
        }
        let mut count_reshares: usize = 0;
        let mut m: usize = 0;
        proof {
            assert(s.reshares@.take(0) =~= Seq::<Reshare>::empty());
        }
        while m < s.reshares.len()
            invariant
                m <= s.reshares@.len(),
                count_reshares == spec_count_reshares(s.reshares@.take(m as int), post_id),
                count_reshares <= m,
            decreases s.reshares@.len() - m,
        {
            proof {
                assert(s.reshares@.take(m + 1).drop_last() =~= s.reshares@.take(m as int));
                assert(s.reshares@.take(m + 1).last() == s.reshares@[m as int]);
            }
            if s.reshares[m].post_id == post_id {
                count_reshares = count_reshares + 1;
            }
            m += 1;
        }
        proof {
            assert(s.likes@.take(s.likes@.len() as int) =~= s.likes@);
            assert(s.reshares@.take(s.reshares@.len() as int) =~= s.reshares@);
        }
        PostCard {
            post_id,
            uri: s.posts[post_idx].uri.clone(),
            title: s.posts[post_idx].title.clone(),
            content: s.posts[post_idx].content.clone(),
            author_id,
            is_author,
            count_likes,
            count_reshares,
        }
    }

    /// Assemble the cards of a list of posts, in order, each exactly the
    /// card of its post.
    pub fn from_posts(s: &Store, post_idxs: &Vec<usize>, viewer: &Option<u64>) -> (r: Vec<PostCard>)
        requires
            s.wf(),
            forall|k: int| 0 <= k < post_idxs@.len() ==> #[trigger] post_idxs@[k] < s.posts@.len(),
        ensures
            r@.len() == post_idxs@.len(),
            forall|k: int|
                0 <= k < r@.len() ==> post_card_matches(
                    *s,
                    post_idxs@[k] as int,
                    *viewer,
                    #[trigger] r@[k],
                ),
    {
        let mut r: Vec<PostCard> = Vec::new();
        let mut i: usize = 0;
        while i < post_idxs.len()
            invariant
                s.wf(),
                i <= post_idxs@.len(),
                r@.len() == i,
                forall|k: int| 0 <= k < post_idxs@.len() ==> #[trigger] post_idxs@[k] < s.posts@.len(),
                forall|k: int|
                    0 <= k < i ==> post_card_matches(
                        *s,
                        post_idxs@[k] as int,
                        *viewer,
                        #[trigger] r@[k],
                    ),
            decreases post_idxs@.len() - i,
        {
            r.push(PostCard::from(s, post_idxs[i], viewer));
            i += 1;
        }
        r
    }
}

/// Role changes planned from a moderation form: nobody may change their
/// own rights, and only an admin may grant or revoke admin rights. A ban
/// is the deletion the moderation page performs afterwards.
pub fn plan_role_changes(
    moderator_id: u64,
    moderator_is_admin: bool,
    form: &MultiAction,
) -> (r: Option<Vec<(u64, Option<Role>)>>)
    ensures
        match r {
            Some(plan) => {
                &&& !form.ids@.contains(moderator_id)
                &&& (moderator_is_admin || !(form.action is Admin || form.action is RevokeAdmin))
                &&& plan@.len() == form.ids@.len()
                &&& forall|k: int|
                    0 <= k < plan@.len() ==> (#[trigger] plan@[k]).0 == form.ids@[k]
                        && plan@[k].1 == match form.action {
                        UserActions::Admin => Some(Role::Admin),
                        UserActions::Moderator => Some(Role::Moderator),
                        UserActions::RevokeAdmin => Some(Role::Normal),
                        UserActions::RevokeModerator => Some(Role::Normal),
                        UserActions::Ban => None::<Role>,
                    }
            },
            None => form.ids@.contains(moderator_id) || (!moderator_is_admin && (form.action is Admin
                || form.action is RevokeAdmin)),
        },
{
    if crate::store::vec_contains_u64(&form.ids, moderator_id) {
        return None;
    }
    if !moderator_is_admin {
        match form.action {
            UserActions::Admin => {
                return None;
            },
            UserActions::RevokeAdmin => {
                return None;
            },
            _ => {},
        }
    }
    let role: Option<Role> = match form.action {
        UserActions::Admin => Some(Role::Admin),
        UserActions::Moderator => Some(Role::Moderator),
        UserActions::RevokeAdmin => Some(Role::Normal),
        UserActions::RevokeModerator => Some(Role::Normal),
        UserActions::Ban => None,
    };
    let mut plan: Vec<(u64, Option<Role>)> = Vec::new();
    let mut i: usize = 0;
    while i < form.ids.len()
        invariant
            i <= form.ids@.len(),
            plan@.len() == i,
            role == match form.action {
                UserActions::Admin => Some(Role::Admin),
                UserActions::Moderator => Some(Role::Moderator),
                UserActions::RevokeAdmin => Some(Role::Normal),
                UserActions::RevokeModerator => Some(Role::Normal),
                UserActions::Ban => None::<Role>,
            },
            forall|k: int|
                0 <= k < i ==> (#[trigger] plan@[k]).0 == form.ids@[k] && plan@[k].1 == role,
        decreases form.ids@.len() - i,
    {
        plan.push((form.ids[i], role));
        i += 1;
    }
    Some(plan)
}

} // verus!
