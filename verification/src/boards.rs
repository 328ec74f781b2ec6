//! What the board pages decide: who may see, post in, manage and delete in a
//! board, what a request is answered, and the texts the pages carry.
use vstd::prelude::*;

use crate::default_return::DefaultReturn;
use crate::markdown::{
    compiled_by, expanded, parse_markdown, rendered, tree_view, tree_well_formed, views, Block,
    BlockView,
};

verus! {

/// A signed-in user, as the user store returns it.
pub struct UserState {
    pub username: String,
    pub role: String,
}

/// The settings of a board, stored with it as JSON.
pub struct BoardMetadata {
    pub owner: String,
    pub is_private: String,
    pub allow_anonymous: Option<String>,
    pub about: Option<String>,
}

/// The content of a board post, stored with it as JSON.
pub struct BoardPostLog {
    pub author: String,
    pub board: String,
}

/// The query of a board's page.
pub struct ViewBoardQueryProps {
    pub offset: Option<i32>,
}

/// The outcome of a token lookup: `None` when the request had no token
/// cookie, else the store's answer with the user if it found one.
pub type TokenLookup = Option<DefaultReturn<Option<UserState>>>;

/// What a page request is answered.
#[derive(PartialEq, Eq, Debug)]
pub enum Reply {
    /// The page itself.
    Page,
    /// The "not found" error page.
    NotFoundPage,
    /// Status 404 with a plain-text body.
    NotFound(String),
    /// Status 406 with a plain-text body.
    NotAcceptable(String),
}

/// The mathematical value of a `Reply`.
pub enum ReplyView {
    Page,
    NotFoundPage,
    NotFound(Seq<char>),
    NotAcceptable(Seq<char>),
}

impl View for Reply {
    type V = ReplyView;

    open spec fn view(&self) -> ReplyView {
        match self {
            Reply::Page => ReplyView::Page,
            Reply::NotFoundPage => ReplyView::NotFoundPage,
            Reply::NotFound(s) => ReplyView::NotFound(s@),
            Reply::NotAcceptable(s) => ReplyView::NotAcceptable(s@),
        }
    }
}

/// The cookie that asks the browser to drop a token the store did not know.
pub const REFRESH_TOKEN_COOKIE: &'static str = "__Secure-Token=refresh; SameSite=Strict; Secure; Path=/; HostOnly=true; HttpOnly=true; Max-Age=0";

/// The answer to an anonymous request for the new-board page.
pub const NEW_BOARD_NEEDS_ACCOUNT: &'static str = "You must have an account to create a board.\nYou can login at: /d/auth/login\nYou can create an account at: /d/auth/register";

/// The answer to an anonymous request for the boards dashboard.
pub const DASHBOARD_NEEDS_ACCOUNT: &'static str = "You must have an account to use atomic pastes.\nYou can login at: /d/auth/login\nYou can create an account at: /d/auth/register";

/// The answer to an anonymous request for a private board.
pub const PRIVATE_BOARD_ANONYMOUS: &'static str = "You do not have permission to view this paste's contents.";

/// The answer to a request for a private board by neither its owner nor staff.
pub const PRIVATE_BOARD_FORBIDDEN: &'static str = "You do not have permission to view this board's contents.";

/// The answer to an anonymous request for a board's settings.
pub const SETTINGS_NEED_ACCOUNT: &'static str = "An account is required to do this";

/// The answer to a request for a board's settings by neither its owner nor staff.
pub const SETTINGS_FORBIDDEN: &'static str = "You do not have permission to manage this board's contents.";

/// Whether `s` is the text `lit`.
fn is_text(s: &String, lit: &str) -> (res: bool)
    ensures
        res == (s@ == lit@),
{
    *s == String::from_str(lit)
}

/// Whether the store answered a token lookup without finding its user.
pub open spec fn token_refused(token_user: TokenLookup) -> bool {
    token_user matches Some(t) && !t.success
}

/// The `Set-Cookie` value of a page: the refresh cookie when the request's
/// token is unknown to the store, else nothing.
pub fn token_set_cookie(token_user: &TokenLookup) -> (res: &'static str)
    ensures
        res@ == (if token_refused(*token_user) {
            REFRESH_TOKEN_COOKIE@
        } else {
            ""@
        }),
{
    match token_user {
        Some(t) => {
            if !t.success {
                REFRESH_TOKEN_COOKIE
            } else {
                ""
            }
        },
        None => "",
    }
}

/// Whether a board lets users who are not signed in post.
pub open spec fn spec_can_post_from_anonymous(m: BoardMetadata) -> bool {
    m.allow_anonymous is None || m.allow_anonymous->0@ != "no"@
}

/// Whether a board lets users who are not signed in post: unless its
/// `allow_anonymous` setting is `no`.
pub fn can_post_from_anonymous(m: &BoardMetadata) -> (res: bool)
    ensures
        res == spec_can_post_from_anonymous(*m),
{
    match &m.allow_anonymous {
        None => true,
        Some(a) => !is_text(a, "no"),
    }
}

/// Whether a page shows the form to post: to a signed-in user, or when the
/// board lets anyone post.
pub fn shows_post_form(auth_state: Option<bool>, m: &BoardMetadata) -> (res: bool)
    ensures
        res == (auth_state == Some(true) || spec_can_post_from_anonymous(*m)),
{
    let signed_in = match auth_state {
        Some(b) => b,
        None => false,
    };
    signed_in || can_post_from_anonymous(m)
}

/// Whether a user is the board's owner or staff.
pub open spec fn spec_can_manage_board(user: UserState, m: BoardMetadata) -> bool {
    user.username@ == m.owner@ || user.role@ == "staff"@
}

/// Whether `user` may manage a board: its owner and staff may.
pub fn can_manage_board(user: &UserState, m: &BoardMetadata) -> (res: bool)
    ensures
        res == spec_can_manage_board(*user, *m),
{
    (user.username == m.owner) || is_text(&user.role, "staff")
}

/// Whether a post may be deleted by the viewer.
pub open spec fn spec_can_delete_post(
    auth_state: Option<bool>,
    user: Option<UserState>,
    board: BoardMetadata,
    post: BoardPostLog,
) -> bool {
    &&& auth_state is Some
    &&& user matches Some(u)
    &&& u.username@ != "Anonymous"@
    &&& (u.username@ == board.owner@ || u.role@ == "staff"@ || u.username@ == post.author@)
}

/// Whether the viewer may delete a post: a signed-in user other than
/// `Anonymous` who owns the board, is staff, or wrote the post.
pub fn can_delete_post(
    auth_state: Option<bool>,
    user: &Option<UserState>,
    board: &BoardMetadata,
    post: &BoardPostLog,
) -> (res: bool)
    ensures
        res == spec_can_delete_post(auth_state, *user, *board, *post),
{
    match user {
        Some(u) => {
            auth_state.is_some() && !is_text(&u.username, "Anonymous") && ((u.username
                == board.owner) || is_text(&u.role, "staff") || (u.username == post.author))
        },
        None => false,
    }
}

/// Whether a board is private.
pub open spec fn is_private(m: BoardMetadata) -> bool {
    m.is_private@ == "yes"@
}

/// The answer to a request for a board's page, given the token lookup and
/// the board's settings (`None` when the board was not found).
pub open spec fn spec_view_board_reply(token_user: TokenLookup, board: Option<BoardMetadata>) -> ReplyView {
    match board {
        None => ReplyView::NotFoundPage,
        Some(m) => if !is_private(m) {
            ReplyView::Page
        } else {
            match token_user {
                None => ReplyView::NotFound(PRIVATE_BOARD_ANONYMOUS@),
                Some(t) => if spec_can_manage_board(t.payload->0, m) {
                    ReplyView::Page
                } else {
                    ReplyView::NotFound(PRIVATE_BOARD_FORBIDDEN@)
                },
            }
        },
    }
}

/// The answer to a request for a board's page, given the token lookup and
/// the board's settings (`None` when the board was not found). A private
/// board is shown only to its owner and to staff.
pub fn view_board_reply(token_user: &TokenLookup, board: &Option<BoardMetadata>) -> (res: Reply)
    requires
        *board matches Some(m) && is_private(m) && *token_user is Some ==> token_user->0.payload is Some,
    ensures
        res@ == spec_view_board_reply(*token_user, *board),
{
    let m = match board {
        None => {
            return Reply::NotFoundPage;
        },
        Some(m) => m,
    };
    if !is_text(&m.is_private, "yes") {
        return Reply::Page;
    }
    match token_user {
        None => Reply::NotFound(String::from_str(PRIVATE_BOARD_ANONYMOUS)),
        Some(t) => match &t.payload {
            Some(user) => if can_manage_board(user, m) {
                Reply::Page
            } else {
                Reply::NotFound(String::from_str(PRIVATE_BOARD_FORBIDDEN))
            },
            None => Reply::NotFoundPage,
        },
    }
}

/// The answer to a request for the new-board page: only signed-in users
/// may create boards.
pub fn new_board_reply(token_user: &TokenLookup) -> (res: Reply)
    ensures
        res@ == (if token_user is None {
            ReplyView::NotFound(NEW_BOARD_NEEDS_ACCOUNT@)
        } else {
            ReplyView::Page
        }),
{
    match token_user {
        None => Reply::NotFound(String::from_str(NEW_BOARD_NEEDS_ACCOUNT)),
        Some(_) => Reply::Page,
    }
}

/// The answer to a request for the boards dashboard: only signed-in users
/// have one.
pub fn dashboard_reply(token_user: &TokenLookup) -> (res: Reply)
    requires
        *token_user matches Some(t) ==> t.payload is Some,
    ensures
        res@ == (if token_user is None {
            ReplyView::NotFound(DASHBOARD_NEEDS_ACCOUNT@)
        } else {
            ReplyView::Page
        }),
{
    match token_user {
        None => Reply::NotFound(String::from_str(DASHBOARD_NEEDS_ACCOUNT)),
        Some(_) => Reply::Page,
    }
}

/// The answer to a request for a board's settings.
pub open spec fn spec_board_settings_reply(
    board: DefaultReturn<Option<BoardMetadata>>,
    token_user: TokenLookup,
) -> ReplyView {
    if !board.success {
        ReplyView::NotFound(board.message@)
    } else {
        match token_user {
            None => ReplyView::NotAcceptable(SETTINGS_NEED_ACCOUNT@),
            Some(t) => if spec_can_manage_board(t.payload->0, board.payload->0) {
                ReplyView::Page
            } else {
                ReplyView::NotFound(SETTINGS_FORBIDDEN@)
            },
        }
    }
}

/// The answer to a request for a board's settings, given the board lookup
/// (with the board's settings as payload) and the token lookup: the store's
/// message if the board is unknown, then an account is required, then only
/// the board's owner and staff get the page.
pub fn board_settings_reply(
    board: &DefaultReturn<Option<BoardMetadata>>,
    token_user: &TokenLookup,
) -> (res: Reply)
    requires
        board.success ==> board.payload is Some,
        board.success && *token_user is Some ==> token_user->0.payload is Some,
    ensures
        res@ == spec_board_settings_reply(*board, *token_user),
{
    if !board.success {
        return Reply::NotFound(board.message.clone());
    }
    let t = match token_user {
        None => {
            return Reply::NotAcceptable(String::from_str(SETTINGS_NEED_ACCOUNT));
        },
        Some(t) => t,
    };
    match (&t.payload, &board.payload) {
        (Some(user), Some(m)) => if can_manage_board(user, m) {
            Reply::Page
        } else {
            Reply::NotFound(String::from_str(SETTINGS_FORBIDDEN))
        },
        _ => Reply::NotFoundPage,
    }
}

/// The answer to a request for a board post: the error page unless both the
/// board and the post were found. A private board's posts are shown too.
pub fn view_post_reply(board_found: bool, post_found: bool) -> (res: Reply)
    ensures
        res@ == (if board_found && post_found {
            ReplyView::Page
        } else {
            ReplyView::NotFoundPage
        }),
{
    if board_found && post_found {
        Reply::Page
    } else {
        Reply::NotFoundPage
    }
}

/// The user a board-post page is shown to: the token's user, if the request
/// had a token.
pub fn post_viewer(token_user: TokenLookup) -> (res: Option<UserState>)
    requires
        token_user matches Some(t) ==> t.payload is Some,
    ensures
        res == (match token_user {
            Some(t) => t.payload,
            None => None,
        }),
{
    match token_user {
        Some(t) => t.payload,
        None => None,
    }
}

/// The number of posts a board page shows.
pub const PAGE_SIZE: i32 = 50;

/// The page offset a board's query asks for; the first page by default.
pub fn board_page_offset(query: &ViewBoardQueryProps) -> (res: i32)
    ensures
        res == (match query.offset {
            Some(o) => o,
            None => 0,
        }),
{
    match query.offset {
        Some(o) => o,
        None => 0,
    }
}

/// The two page links of a board page.
pub struct PageLinks {
    /// The offset of the previous page.
    pub back_offset: i32,
    /// Whether there is no previous page.
    pub back_disabled: bool,
    /// The offset of the next page.
    pub next_offset: i32,
    /// Whether there is no next page.
    pub next_disabled: bool,
}

/// The page links of a board page at `offset` that shows `post_count`
/// posts: one page size back and forth; back is disabled on the first page,
/// next when this page is empty.
pub open spec fn spec_page_links(offset: i32, post_count: usize) -> PageLinks {
    PageLinks {
        back_offset: (offset - PAGE_SIZE) as i32,
        back_disabled: offset <= 0,
        next_offset: (offset + PAGE_SIZE) as i32,
        next_disabled: post_count == 0,
    }
}

/// The page links of a board page at `offset` that shows `post_count` posts.
pub fn page_links(offset: i32, post_count: usize) -> (res: PageLinks)
    requires
        i32::MIN + PAGE_SIZE <= offset <= i32::MAX - PAGE_SIZE,
    ensures
        res == spec_page_links(offset, post_count),
        res.back_offset == offset - PAGE_SIZE,
        res.next_offset == offset + PAGE_SIZE,
{
    PageLinks {
        back_offset: offset - PAGE_SIZE,
        back_disabled: offset <= 0,
        next_offset: offset + PAGE_SIZE,
        next_disabled: post_count == 0,
    }
}

/// Whether `res` is the HTML of a board's About section: the rendered
/// markdown of `about`, whose extension blocks were parsed into `tree`, with
/// style programs handed to `compile`.
pub open spec fn is_about_html<F: Fn(String) -> String>(
    res: Seq<char>,
    about: Seq<char>,
    tree: Seq<BlockView>,
    compile: F,
) -> bool {
    exists|programs: Seq<String>, css: Seq<String>|
        #[trigger] compiled_by(compile, expanded(tree, about), programs, css) && res == rendered(
            tree,
            about,
            views(css),
        )
}

/// The About section of a board's page: the rendered markdown of the
/// board's `about` text (whose extension blocks were parsed into `tree`) when
/// it has one, and nothing otherwise.
pub fn board_about<F: Fn(String) -> String>(m: &BoardMetadata, tree: &Vec<Block>, compile: F) -> (res: Option<String>)
    requires
        tree_well_formed(tree_view(tree@)),
        forall|p: String| compile.requires((p,)),
    ensures
        res is Some <==> m.about is Some,
        res matches Some(html) ==> is_about_html(html@, m.about->0@, tree_view(tree@), compile),
{
    match &m.about {
        Some(about) => Some(parse_markdown(about.as_str(), tree, compile)),
        None => None,
    }
}

/// The About section of a board post's page: shown only together with the
/// reply form, and then as on the board's page.
pub fn post_about<F: Fn(String) -> String>(
    auth_state: Option<bool>,
    m: &BoardMetadata,
    tree: &Vec<Block>,
    compile: F,
) -> (res: Option<String>)
    requires
        tree_well_formed(tree_view(tree@)),
        forall|p: String| compile.requires((p,)),
    ensures
        res is Some <==> (auth_state == Some(true) || spec_can_post_from_anonymous(*m))
            && m.about is Some,
        res matches Some(html) ==> is_about_html(html@, m.about->0@, tree_view(tree@), compile),
{
    if shows_post_form(auth_state, m) {
        board_about(m, tree, compile)
    } else {
        None
    }
}

/// The head of a page: its title, then its Open Graph title and description.
pub open spec fn page_head(title: Seq<char>, og_title: Seq<char>, description: Seq<char>) -> Seq<char> {
    "<title>"@ + title + "</title>\n                <meta property=\"og:title\" content=\""@ + og_title
        + "\" />\n                <meta property=\"og:description\" content=\""@ + description
        + "\" />"@
}

/// The head of a page, as `page_head` states.
fn head_of(title: &str, og_title: &str, description: &str) -> (res: String)
    ensures
        res@ == page_head(title@, og_title@, description@),
{
    let mut h = String::from_str("<title>");
    h.append(title);
    h.append("</title>\n                <meta property=\"og:title\" content=\"");
    h.append(og_title);
    h.append("\" />\n                <meta property=\"og:description\" content=\"");
    h.append(description);
    h.append("\" />");
    h
}

/// The description of a board's page.
pub const BOARD_DESCRIPTION: &'static str = "View board posts on ::SITE_NAME::";

/// The head of a board's page.
pub fn view_board_head(name: &str) -> (res: String)
    ensures
        res@ == page_head(name@, name@, BOARD_DESCRIPTION@),
{
    head_of(name, name, BOARD_DESCRIPTION)
}

/// The Open Graph title of a board post's page.
pub const POST_OG_TITLE: &'static str = "View board post";

/// The head of a board post's page.
pub fn view_post_head(name: &str) -> (res: String)
    ensures
        res@ == page_head(name@, POST_OG_TITLE@, "View post in board "@ + name@),
{
    let mut description = String::from_str("View post in board ");
    description.append(name);
    head_of(name, POST_OG_TITLE, description.as_str())
}

/// The head of a board's settings page.
pub fn board_settings_head(name: &str) -> (res: String)
    ensures
        res@ == "<title>"@ + name@ + "</title>\n                <meta property=\"og:title\" content=\""@
            + name@ + " (board settings) - ::SITE_NAME::\" />"@,
{
    let mut h = String::from_str("<title>");
    h.append(name);
    h.append("</title>\n                <meta property=\"og:title\" content=\"");
    h.append(name);
    h.append(" (board settings) - ::SITE_NAME::\" />");
    h
}

/// The script of a board's settings page: it opens the settings editor on
/// the board's settings (given as their JSON text) for the board `name`.
pub fn board_settings_script(metadata_json: &str, name: &str) -> (res: String)
    ensures
        res@ == "import { paste_settings } from \"/static/js/SettingsEditor.js\";\n                        paste_settings("@
            + metadata_json@ + ", \""@ + name@
            + "\", document.getElementById(\"options-field\"), \"board\");"@,
{
    let mut s = String::from_str(
        "import { paste_settings } from \"/static/js/SettingsEditor.js\";\n                        paste_settings(",
    );
    s.append(metadata_json);
    s.append(", \"");
    s.append(name);
    s.append("\", document.getElementById(\"options-field\"), \"board\");");
    s
}

/// The head of the new-board page.
pub const NEW_BOARD_HEAD: &'static str = "<title>New Board - ::SITE_NAME::</title>";

/// The head of the boards dashboard.
pub const DASHBOARD_HEAD: &'static str = "<title>My Boards - ::SITE_NAME::</title>";

/// The head of the error page.
pub const NOT_FOUND_HEAD: &'static str = "<title>404: Not Found</title>";

/// The address of a board's page.
pub fn board_link(name: &str) -> (res: String)
    ensures
        res@ == "/b/"@ + name@,
{
    let mut l = String::from_str("/b/");
    l.append(name);
    l
}

/// The address of a board's settings page.
pub fn board_manage_link(name: &str) -> (res: String)
    ensures
        res@ == "/b/"@ + name@ + "/manage"@,
{
    let mut l = board_link(name);
    l.append("/manage");
    l
}

/// The API address that deletes post `id` of the post's board.
pub fn delete_post_endpoint(post: &BoardPostLog, id: &str) -> (res: String)
    ensures
        res@ == "/api/board/"@ + post.board@ + "/posts/"@ + id@,
{
    let mut l = String::from_str("/api/board/");
    l.append(post.board.as_str());
    l.append("/posts/");
    l.append(id);
    l
}

/// Only a board's owner and staff may manage it, and both may: the user's
/// name must be the owner's name, letter for letter, or the role `staff`.
pub proof fn lemma_only_owner_and_staff_manage(user: UserState, m: BoardMetadata)
    ensures
        spec_can_manage_board(user, m) <==> (user.username@ == m.owner@ || user.role@ == "staff"@),
{
}

/// A private board asked for by a signed-in user who is neither its owner
/// (by name) nor staff is answered "not found" with the board message; its
/// settings are refused the same way.
pub proof fn lemma_private_board_refused_to_others(
    t: DefaultReturn<Option<UserState>>,
    m: BoardMetadata,
)
    requires
        t.payload matches Some(u) && u.username@ != m.owner@ && u.role@ != "staff"@,
        m.is_private@ == "yes"@,
    ensures
        spec_view_board_reply(Some(t), Some(m)) == ReplyView::NotFound(PRIVATE_BOARD_FORBIDDEN@),
        spec_board_settings_reply(
            DefaultReturn { success: true, message: t.message, payload: Some(m) },
            Some(t),
        ) == ReplyView::NotFound(SETTINGS_FORBIDDEN@),
{
}

/// The page links: back goes one page size down and is disabled exactly on
/// offsets up to zero, so every later page can go back; next goes one page
/// size up and is disabled exactly when the page shows no posts.
pub proof fn lemma_page_links_meaning(offset: i32, post_count: usize)
    requires
        i32::MIN + PAGE_SIZE <= offset <= i32::MAX - PAGE_SIZE,
    ensures
        spec_page_links(offset, post_count).back_offset == offset - 50,
        spec_page_links(offset, post_count).next_offset == offset + 50,
        offset > 0 ==> !spec_page_links(offset, post_count).back_disabled,
        offset <= 0 ==> spec_page_links(offset, post_count).back_disabled,
        post_count > 0 ==> !spec_page_links(offset, post_count).next_disabled,
        post_count == 0 ==> spec_page_links(offset, post_count).next_disabled,
{
}

/// Users who are not signed in may post unless the board's
/// `allow_anonymous` setting is exactly `no`.
pub proof fn lemma_anonymous_posting_rule(m: BoardMetadata)
    ensures
        spec_can_post_from_anonymous(m) <==> (m.allow_anonymous is None || m.allow_anonymous->0@
            != "no"@),
{
}

/// A post may be deleted exactly by a signed-in user, not named
/// `Anonymous`, who owns the board, is staff, or wrote the post.
pub proof fn lemma_delete_rule(
    auth_state: Option<bool>,
    user: Option<UserState>,
    board: BoardMetadata,
    post: BoardPostLog,
)
    ensures
        spec_can_delete_post(auth_state, user, board, post) <==> (auth_state is Some
            && user is Some && user->0.username@ != "Anonymous"@ && (user->0.username@
            == board.owner@ || user->0.role@ == "staff"@ || user->0.username@ == post.author@)),
{
}

/// A board that was not found gets the error page; a private board asked
/// for without a token is refused with the message for anonymous readers.
pub proof fn lemma_missing_and_anonymous_replies(token_user: TokenLookup, m: BoardMetadata)
    ensures
        spec_view_board_reply(token_user, None) == ReplyView::NotFoundPage,
        m.is_private@ == "yes"@ ==> spec_view_board_reply(None, Some(m)) == ReplyView::NotFound(
            PRIVATE_BOARD_ANONYMOUS@,
        ),
        m.is_private@ != "yes"@ ==> spec_view_board_reply(token_user, Some(m)) == ReplyView::Page,
{
}

/// Whoever may manage a board may also see its page, private or not.
pub proof fn lemma_manager_sees_board(t: DefaultReturn<Option<UserState>>, m: BoardMetadata)
    requires
        t.payload matches Some(u) && spec_can_manage_board(u, m),
    ensures
        spec_view_board_reply(Some(t), Some(m)) == ReplyView::Page,
{
}

/// Whoever is given a board's settings page is also given the board's page.
pub proof fn lemma_settings_imply_view(
    board: DefaultReturn<Option<BoardMetadata>>,
    token_user: TokenLookup,
)
    requires
        board.payload is Some,
        token_user matches Some(t) ==> t.payload is Some,
        spec_board_settings_reply(board, token_user) == ReplyView::Page,
    ensures
        spec_view_board_reply(token_user, board.payload) == ReplyView::Page,
{
}

/// A board that is not private is shown to everyone, signed in or not.
pub proof fn lemma_public_board_shown(token_user: TokenLookup, m: BoardMetadata)
    requires
        !is_private(m),
    ensures
        spec_view_board_reply(token_user, Some(m)) == ReplyView::Page,
{
}

/// The owner of a board, signed in under a name other than `Anonymous`, may
/// delete every post of it.
pub proof fn lemma_owner_deletes_posts(
    auth_state: Option<bool>,
    owner: UserState,
    board: BoardMetadata,
    post: BoardPostLog,
)
    requires
        auth_state is Some,
        owner.username@ == board.owner@,
        owner.username@ != "Anonymous"@,
    ensures
        spec_can_delete_post(auth_state, Some(owner), board, post),
{
}

/// The user named `Anonymous` may delete no post.
pub proof fn lemma_anonymous_deletes_nothing(
    auth_state: Option<bool>,
    user: UserState,
    board: BoardMetadata,
    post: BoardPostLog,
)
    requires
        user.username@ == "Anonymous"@,
    ensures
        !spec_can_delete_post(auth_state, Some(user), board, post),
{
}

/// Going back from the next page returns to the page one started from.
pub proof fn lemma_back_undoes_next(offset: i32, post_count: usize, next_count: usize)
    requires
        i32::MIN + PAGE_SIZE <= offset <= i32::MAX - 2 * PAGE_SIZE,
    ensures
        spec_page_links(spec_page_links(offset, post_count).next_offset, next_count).back_offset
            == offset,
{
}

} // verus!
