use bundlrs::boards::{
    board_link, board_manage_link, board_settings_script, board_page_offset, board_settings_head, board_settings_reply,
    can_delete_post, can_manage_board, can_post_from_anonymous, dashboard_reply,
    delete_post_endpoint, new_board_reply, page_links, post_viewer, shows_post_form,
    token_set_cookie, view_board_head, view_board_reply, view_post_head, view_post_reply,
    BoardMetadata, BoardPostLog, Reply, UserState, ViewBoardQueryProps, REFRESH_TOKEN_COOKIE,
};
use bundlrs::boards::{board_about, post_about};
use bundlrs::default_return::DefaultReturn;
use bundlrs::markdown::{Block, Rule};

fn user(name: &str, role: &str) -> UserState {
    UserState { username: name.to_string(), role: role.to_string() }
}

fn meta(owner: &str, private: &str, anonymous: Option<&str>) -> BoardMetadata {
    BoardMetadata {
        owner: owner.to_string(),
        is_private: private.to_string(),
        allow_anonymous: anonymous.map(|s| s.to_string()),
        about: None,
    }
}

fn found(u: UserState) -> Option<DefaultReturn<Option<UserState>>> {
    Some(DefaultReturn { success: true, message: String::new(), payload: Some(u) })
}

fn post(author: &str, board: &str) -> BoardPostLog {
    BoardPostLog { author: author.to_string(), board: board.to_string() }
}

#[test]
fn unknown_token_gets_refresh_cookie() {
    let stale = Some(DefaultReturn { success: false, message: "gone".to_string(), payload: None });
    assert_eq!(token_set_cookie(&stale), REFRESH_TOKEN_COOKIE);
    assert_eq!(token_set_cookie(&found(user("a", "member"))), "");
    assert_eq!(token_set_cookie(&None), "");
}

#[test]
fn anonymous_posting_setting() {
    assert!(can_post_from_anonymous(&meta("o", "no", None)));
    assert!(can_post_from_anonymous(&meta("o", "no", Some("yes"))));
    assert!(!can_post_from_anonymous(&meta("o", "no", Some("no"))));
}

#[test]
fn post_form_shown() {
    let closed = meta("o", "no", Some("no"));
    assert!(shows_post_form(Some(true), &closed));
    assert!(!shows_post_form(Some(false), &closed));
    assert!(!shows_post_form(None, &closed));
    assert!(shows_post_form(Some(false), &meta("o", "no", None)));
}

#[test]
fn managing_a_board() {
    let m = meta("owner", "no", None);
    assert!(can_manage_board(&user("owner", "member"), &m));
    assert!(can_manage_board(&user("x", "staff"), &m));
    assert!(!can_manage_board(&user("x", "member"), &m));
}

#[test]
fn deleting_posts() {
    let m = meta("owner", "no", None);
    let p = post("author", "b");
    assert!(can_delete_post(Some(true), &Some(user("owner", "member")), &m, &p));
    assert!(can_delete_post(Some(true), &Some(user("author", "member")), &m, &p));
    assert!(can_delete_post(Some(true), &Some(user("x", "staff")), &m, &p));
    assert!(!can_delete_post(Some(true), &Some(user("x", "member")), &m, &p));
    assert!(!can_delete_post(None, &Some(user("owner", "member")), &m, &p));
    assert!(!can_delete_post(Some(true), &None, &m, &p));
    let anon_board = meta("Anonymous", "no", None);
    assert!(!can_delete_post(Some(true), &Some(user("Anonymous", "staff")), &anon_board, &post("Anonymous", "b")));
}

#[test]
fn viewing_a_board() {
    let private = meta("owner", "yes", None);
    assert_eq!(view_board_reply(&None, &None), Reply::NotFoundPage);
    assert_eq!(view_board_reply(&None, &Some(meta("owner", "no", None))), Reply::Page);
    assert_eq!(
        view_board_reply(&None, &Some(meta("owner", "yes", None))),
        Reply::NotFound("You do not have permission to view this paste's contents.".to_string())
    );
    assert_eq!(
        view_board_reply(&found(user("x", "member")), &Some(meta("owner", "yes", None))),
        Reply::NotFound("You do not have permission to view this board's contents.".to_string())
    );
    assert_eq!(view_board_reply(&found(user("owner", "member")), &Some(private)), Reply::Page);
    assert_eq!(view_board_reply(&found(user("x", "staff")), &Some(meta("owner", "yes", None))), Reply::Page);
}

#[test]
fn manager_sees_private_board() {
    let m = meta("owner", "yes", None);
    assert!(can_manage_board(&user("owner", "member"), &m));
    assert_eq!(view_board_reply(&found(user("owner", "member")), &Some(m)), Reply::Page);
}

#[test]
fn new_board_and_dashboard_need_an_account() {
    assert_eq!(
        new_board_reply(&None),
        Reply::NotFound("You must have an account to create a board.\nYou can login at: /d/auth/login\nYou can create an account at: /d/auth/register".to_string())
    );
    assert_eq!(new_board_reply(&found(user("a", "member"))), Reply::Page);
    assert_eq!(
        dashboard_reply(&None),
        Reply::NotFound("You must have an account to use atomic pastes.\nYou can login at: /d/auth/login\nYou can create an account at: /d/auth/register".to_string())
    );
    assert_eq!(dashboard_reply(&found(user("a", "member"))), Reply::Page);
}

#[test]
fn board_settings_replies() {
    let missing = DefaultReturn { success: false, message: "Board does not exist!".to_string(), payload: None };
    assert_eq!(board_settings_reply(&missing, &None), Reply::NotFound("Board does not exist!".to_string()));
    let board = DefaultReturn { success: true, message: String::new(), payload: Some(meta("owner", "no", None)) };
    assert_eq!(board_settings_reply(&board, &None), Reply::NotAcceptable("An account is required to do this".to_string()));
    assert_eq!(
        board_settings_reply(&board, &found(user("x", "member"))),
        Reply::NotFound("You do not have permission to manage this board's contents.".to_string())
    );
    assert_eq!(board_settings_reply(&board, &found(user("owner", "member"))), Reply::Page);
}

#[test]
fn board_post_replies() {
    assert_eq!(view_post_reply(true, true), Reply::Page);
    assert_eq!(view_post_reply(false, true), Reply::NotFoundPage);
    assert_eq!(view_post_reply(true, false), Reply::NotFoundPage);
    let v = post_viewer(found(user("a", "member"))).unwrap();
    assert_eq!(v.username, "a");
    assert!(post_viewer(None).is_none());
}

#[test]
fn pages_of_a_board() {
    assert_eq!(board_page_offset(&ViewBoardQueryProps { offset: None }), 0);
    assert_eq!(board_page_offset(&ViewBoardQueryProps { offset: Some(100) }), 100);
    let l = page_links(0, 3);
    assert_eq!((l.back_offset, l.back_disabled, l.next_offset, l.next_disabled), (-50, true, 50, false));
    let l = page_links(100, 0);
    assert_eq!((l.back_offset, l.back_disabled, l.next_offset, l.next_disabled), (50, false, 150, true));
}

#[test]
fn back_after_next_returns() {
    let next = page_links(100, 10).next_offset;
    assert_eq!(page_links(next, 10).back_offset, 100);
}

#[test]
fn heads_and_links() {
    assert_eq!(
        view_board_head("cats"),
        "<title>cats</title>\n                <meta property=\"og:title\" content=\"cats\" />\n                <meta property=\"og:description\" content=\"View board posts on ::SITE_NAME::\" />"
    );
    assert_eq!(
        view_post_head("cats"),
        "<title>cats</title>\n                <meta property=\"og:title\" content=\"View board post\" />\n                <meta property=\"og:description\" content=\"View post in board cats\" />"
    );
    assert_eq!(
        board_settings_head("cats"),
        "<title>cats</title>\n                <meta property=\"og:title\" content=\"cats (board settings) - ::SITE_NAME::\" />"
    );
    assert_eq!(board_link("cats"), "/b/cats");
    assert_eq!(board_manage_link("cats"), "/b/cats/manage");
    assert_eq!(delete_post_endpoint(&post("a", "cats"), "42"), "/api/board/cats/posts/42");
}

#[test]
fn settings_script_text() {
    assert_eq!(
        board_settings_script("{\"owner\":\"o\"}", "cats"),
        "import { paste_settings } from \"/static/js/SettingsEditor.js\";\n                        paste_settings({\"owner\":\"o\"}, \"cats\", document.getElementById(\"options-field\"), \"board\");"
    );
}

#[test]
fn settings_page_implies_board_page() {
    let board = DefaultReturn { success: true, message: String::new(), payload: Some(meta("owner", "yes", None)) };
    let token = found(user("x", "staff"));
    assert_eq!(board_settings_reply(&board, &token), Reply::Page);
    assert_eq!(view_board_reply(&token, &board.payload), Reply::Page);
}

fn css_of(program: String) -> String {
    format!("css[{}]", program)
}

fn with_about(anonymous: Option<&str>, about: Option<&str>) -> BoardMetadata {
    BoardMetadata {
        owner: "o".to_string(),
        is_private: "no".to_string(),
        allow_anonymous: anonymous.map(|s| s.to_string()),
        about: about.map(|s| s.to_string()),
    }
}

#[test]
fn board_about_section() {
    let tree = vec![Block { rule: Rule::CLOSE, text: "close".to_string(), inner: vec![] }];
    assert_eq!(board_about(&with_about(None, Some("hi e#close#")), &tree, css_of), Some("hi </span>".to_string()));
    assert_eq!(board_about(&with_about(None, None), &vec![], css_of), None);
}

#[test]
fn post_about_section_follows_reply_form() {
    let m = with_about(Some("no"), Some("about ssm#x#"));
    assert_eq!(post_about(Some(true), &m, &vec![], css_of), Some("about <style>css[x]</style>".to_string()));
    assert_eq!(post_about(Some(false), &m, &vec![], css_of), None);
    assert_eq!(post_about(None, &with_about(None, Some("a")), &vec![], css_of), Some("a".to_string()));
    assert_eq!(post_about(Some(true), &with_about(None, None), &vec![], css_of), None);
}
