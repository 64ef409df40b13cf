use fritz_log_parser::{
    Challenge, LoginChallenge, Permission, PermissionParseError, SessionId, SessionIdParseError,
    SessionInfo, User,
};

const CHALLENGE: &str =
    "2$60000$d4949767019d1e6eed27c27f404c7aa7$6000$4f3415a3b5396a9675d08906ee6a6933";
const RESPONSE: &str = "4f3415a3b5396a9675d08906ee6a6933$16a4a11987d802c6f3e67d91d1425b5a0eade78561a5810ef905372ab1da53ca";

#[test]
fn session_id_is_sixteen_hex_digits() {
    let id = SessionId::from_str("0de8afc227e5abeb").unwrap();
    assert_eq!(id.id, [13, 232, 175, 194, 39, 229, 171, 235]);
    assert!(id.is_valid());
    assert_eq!(id.to_string(), "0de8afc227e5abeb");
    assert_eq!(
        SessionId::from_str("0DE8AFC227E5ABEB").unwrap().to_string(),
        "0de8afc227e5abeb"
    );
}

#[test]
fn session_id_of_no_session_is_refused() {
    assert_eq!(
        SessionId::from_str("0000000000000000"),
        Err(SessionIdParseError::Zero)
    );
    assert!(!SessionId { id: [0; 8] }.is_valid());
    assert!(SessionId { id: [0, 0, 0, 0, 0, 0, 0, 1] }.is_valid());
}

#[test]
fn malformed_session_id_is_refused() {
    for s in ["", "0de8afc227e5abe", "0de8afc227e5abeb0", "0de8afc227e5abex", "0de8afc227e5abeß"] {
        assert_eq!(SessionId::from_str(s), Err(SessionIdParseError::Id), "{}", s);
    }
}

#[test]
fn permission_is_one_or_two() {
    assert_eq!(Permission::from_str("1"), Ok(Permission::ReadOnly));
    assert_eq!(Permission::from_str("2"), Ok(Permission::ReadWrite));
    assert_eq!(Permission::from_str("+2"), Ok(Permission::ReadWrite));
    assert_eq!(Permission::from_str("0"), Err(PermissionParseError::OutOfRange));
    assert_eq!(Permission::from_str("3"), Err(PermissionParseError::OutOfRange));
    assert_eq!(Permission::from_str("-1"), Err(PermissionParseError::OutOfRange));
    assert_eq!(Permission::from_str(""), Err(PermissionParseError::Parse));
    assert_eq!(Permission::from_str("rw"), Err(PermissionParseError::Parse));
    assert_eq!(Permission::from_str("2147483648"), Err(PermissionParseError::Parse));
}

#[test]
fn session_info_knows_its_users_and_answers_its_challenge() {
    let info = SessionInfo {
        session_id: SessionId { id: [0; 8] },
        challenge: Challenge::from_str(CHALLENGE).unwrap(),
        block_time: 12,
        users: vec![
            User { is_last: true, name: "fritz3713".to_string() },
            User { is_last: false, name: "fritz3714".to_string() },
        ],
    };
    assert!(info.has_user("fritz3713"));
    assert!(info.has_user("fritz3714"));
    assert!(!info.has_user("fritz371"));
    assert!(!info.has_user(""));
    assert_eq!(info.make_response("vorab9049").to_string(), RESPONSE);
}

#[test]
fn login_challenge_knows_its_users_and_answers_its_challenge() {
    let login = LoginChallenge {
        session_id: None,
        challenge: Challenge::from_str(CHALLENGE).unwrap(),
        block_time: 0,
        permissions: None,
        users: vec!["fritz3713".to_string()],
    };
    assert!(login.has_user("fritz3713"));
    assert!(!login.has_user("Fritz3713"));
    assert_eq!(login.make_response("vorab9049").to_string(), RESPONSE);
}

use fritz_log_parser::xml::Error;
use fritz_log_parser::{
    find_node_by_tag, find_text_by_tag, ChallengeParseError, Permissions, PermissionsParseError,
    SessionResponseParseError, XmlDocument, XmlNode, XmlSyntaxError,
};

#[test]
fn session_parse_xml_error() {
    const XML: &str = r#"
<SessionInfo>
    <SID>0000000000000000</SID>
    <Challenge>2$60000$d4949767019d1e6eed27c27f404c7aa7$6000$4f3415a3b5396a9675d08906ee6a6933</Challenge>
    <BlockTime>12</BlockTime>
    <Rights></Rights>
    <Users>
        <User last="1">fritz3713</User>
    </Users>
</SessionInfo>
            "#;

    let doc = XmlDocument::parse(XML).unwrap();
    let resp = LoginChallenge::from_xml(&doc).unwrap();

    assert_eq!(resp.session_id, None);

    assert_eq!(resp.challenge.statick.iterations, 60000);
    assert_eq!(resp.challenge.dynamic.iterations, 6000);
    assert_eq!(
        resp.challenge.statick.salt,
        [212, 148, 151, 103, 1, 157, 30, 110, 237, 39, 194, 127, 64, 76, 122, 167]
    );
    assert_eq!(
        resp.challenge.dynamic.salt,
        [79, 52, 21, 163, 181, 57, 106, 150, 117, 208, 137, 6, 238, 106, 105, 51]
    );

    assert_eq!(resp.block_time, 12);
    assert_eq!(resp.permissions, None);
    assert_eq!(resp.users, ["fritz3713"]);
}

const XML_SUCCESS: &str = r#"
<SessionInfo>
    <SID>0de8afc227e5abeb</SID>
    <Challenge>2$60000$d4949767019d1e6eed27c27f404c7aa7$6000$4f3415a3b5396a9675d08906ee6a6933</Challenge>
    <BlockTime>0</BlockTime>
    <Rights>
        <Name>Dial</Name>
        <Access>2</Access>
        <Name>App</Name>
        <Access>2</Access>
        <Name>HomeAuto</Name>
        <Access>2</Access>
        <Name>BoxAdmin</Name>
        <Access>2</Access>
        <Name>Phone</Name>
        <Access>2</Access>
        <Name>NAS</Name>
        <Access>2</Access>
    </Rights>
    <Users>
        <User last="1">fritz3713</User>
    </Users>
</SessionInfo>
        "#;

#[test]
fn session_parse_xml_success() {
    let doc = XmlDocument::parse(XML_SUCCESS).unwrap();
    let resp = LoginChallenge::from_xml(&doc).unwrap();

    assert_eq!(
        resp.session_id.map(|s| s.id),
        Some([13, 232, 175, 194, 39, 229, 171, 235])
    );

    assert_eq!(resp.challenge.statick.iterations, 60000);
    assert_eq!(resp.challenge.dynamic.iterations, 6000);
    assert_eq!(
        resp.challenge.statick.salt,
        [212, 148, 151, 103, 1, 157, 30, 110, 237, 39, 194, 127, 64, 76, 122, 167]
    );
    assert_eq!(
        resp.challenge.dynamic.salt,
        [79, 52, 21, 163, 181, 57, 106, 150, 117, 208, 137, 6, 238, 106, 105, 51]
    );

    assert_eq!(resp.block_time, 0);
    assert_eq!(
        resp.permissions,
        Some(Permissions {
            dial: Permission::ReadWrite,
            app: Permission::ReadWrite,
            home_auto: Permission::ReadWrite,
            box_admin: Permission::ReadWrite,
            phone: Permission::ReadWrite,
            nas: Permission::ReadWrite,
        })
    );
    assert_eq!(resp.users, ["fritz3713"]);
}

#[test]
fn login_challenge_from_text_is_that_from_the_document() {
    let doc = XmlDocument::parse(XML_SUCCESS).unwrap();
    assert_eq!(
        LoginChallenge::from_xml_text(XML_SUCCESS),
        LoginChallenge::from_xml(&doc)
    );
    assert_eq!(
        LoginChallenge::from_xml_text("<SessionInfo>"),
        Err(SessionResponseParseError::Xml)
    );
    assert_eq!(XmlDocument::parse(""), Err(XmlSyntaxError));
}

fn session_xml(sid: &str, challenge: &str, block_time: &str, rights: &str, users: &str) -> String {
    format!(
        "<SessionInfo>{}{}{}{}{}</SessionInfo>",
        sid, challenge, block_time, rights, users
    )
}

const SID: &str = "<SID>0de8afc227e5abeb</SID>";
const CHALLENGE_NODE: &str = "<Challenge>2$60000$d4949767019d1e6eed27c27f404c7aa7$6000$4f3415a3b5396a9675d08906ee6a6933</Challenge>";
const BLOCK_TIME: &str = "<BlockTime>0</BlockTime>";
const RIGHTS: &str = "<Rights/>";
const USERS: &str = "<Users><User>a</User><Other>x</Other><User last=\"1\">b</User></Users>";

#[test]
fn every_fault_of_an_answer_is_reported() {
    let parse = |xml: String| LoginChallenge::from_xml_text(&xml);

    let ok = parse(session_xml(SID, CHALLENGE_NODE, BLOCK_TIME, RIGHTS, USERS)).unwrap();
    assert_eq!(ok.users, ["a", "b"]);
    assert_eq!(ok.permissions, None);

    assert_eq!(
        LoginChallenge::from_xml_text("<Session/>"),
        Err(SessionResponseParseError::MissingNode(Error::FieldNotFound("SessionInfo")))
    );
    assert_eq!(
        parse(session_xml("", CHALLENGE_NODE, BLOCK_TIME, RIGHTS, USERS)),
        Err(SessionResponseParseError::MissingNode(Error::FieldNotFound("SID")))
    );
    assert_eq!(
        parse(session_xml("<SID/>", CHALLENGE_NODE, BLOCK_TIME, RIGHTS, USERS)),
        Err(SessionResponseParseError::MissingNode(Error::NoText("SID")))
    );
    assert_eq!(
        parse(session_xml(SID, "", BLOCK_TIME, RIGHTS, USERS)),
        Err(SessionResponseParseError::MissingNode(Error::FieldNotFound("Challenge")))
    );
    assert_eq!(
        parse(session_xml(SID, CHALLENGE_NODE, "<BlockTime><a/></BlockTime>", RIGHTS, USERS)),
        Err(SessionResponseParseError::MissingNode(Error::NoText("BlockTime")))
    );
    assert_eq!(
        parse(session_xml(SID, CHALLENGE_NODE, BLOCK_TIME, "", USERS)),
        Err(SessionResponseParseError::MissingNode(Error::FieldNotFound("Rights")))
    );
    assert_eq!(
        parse(session_xml(SID, CHALLENGE_NODE, BLOCK_TIME, RIGHTS, "")),
        Err(SessionResponseParseError::MissingNode(Error::FieldNotFound("Users")))
    );
    assert_eq!(
        parse(session_xml("<SID>0de8</SID>", CHALLENGE_NODE, BLOCK_TIME, RIGHTS, USERS)),
        Err(SessionResponseParseError::SessionId(SessionIdParseError::Id))
    );
    assert_eq!(
        parse(session_xml(SID, "<Challenge>3$1$2$3$4</Challenge>", BLOCK_TIME, RIGHTS, USERS)),
        Err(SessionResponseParseError::Challenge(ChallengeParseError::Version))
    );
    assert_eq!(
        parse(session_xml(SID, CHALLENGE_NODE, "<BlockTime>-1</BlockTime>", RIGHTS, USERS)),
        Err(SessionResponseParseError::BlockTime)
    );
    assert_eq!(
        parse(session_xml(SID, CHALLENGE_NODE, BLOCK_TIME, "<Rights><Name>Dial</Name></Rights>", USERS)),
        Err(SessionResponseParseError::Permissions(PermissionsParseError::Length))
    );
    assert_eq!(
        parse(session_xml(SID, CHALLENGE_NODE, BLOCK_TIME, RIGHTS, "<Users><User/></Users>")),
        Err(SessionResponseParseError::NoText)
    );
    // a missing node is found before a malformed one
    assert_eq!(
        parse(session_xml("<SID>0de8</SID>", CHALLENGE_NODE, BLOCK_TIME, RIGHTS, "")),
        Err(SessionResponseParseError::MissingNode(Error::FieldNotFound("Users")))
    );
}

fn rights(entries: &[(&str, &str)]) -> Result<Option<Permissions>, PermissionsParseError> {
    let mut xml = String::from("<Rights>");
    for (name, access) in entries {
        xml.push_str(&format!("<Name>{}</Name><Access>{}</Access>", name, access));
    }
    xml.push_str("</Rights>");
    let doc = XmlDocument::parse(&xml).unwrap();
    let node = find_node_by_tag(&doc, doc.root(), "Rights").unwrap();
    Permissions::from_rights_node(&doc, node)
}

#[test]
fn rights_are_six_areas_in_their_order() {
    let all = [
        ("Dial", "1"),
        ("App", "2"),
        ("HomeAuto", "1"),
        ("BoxAdmin", "2"),
        ("Phone", "1"),
        ("NAS", "2"),
    ];
    assert_eq!(
        rights(&all),
        Ok(Some(Permissions {
            dial: Permission::ReadOnly,
            app: Permission::ReadWrite,
            home_auto: Permission::ReadOnly,
            box_admin: Permission::ReadWrite,
            phone: Permission::ReadOnly,
            nas: Permission::ReadWrite,
        }))
    );
    assert_eq!(rights(&[]), Ok(None));
    assert_eq!(rights(&all[..5]), Err(PermissionsParseError::Length));

    let mut swapped = all;
    swapped.swap(4, 5);
    assert_eq!(rights(&swapped), Err(PermissionsParseError::PermissionName));

    let mut bad_value = all;
    bad_value[3].1 = "3";
    assert_eq!(
        rights(&bad_value),
        Err(PermissionsParseError::PermissionValue(PermissionParseError::OutOfRange))
    );
    bad_value[3].1 = "rw";
    assert_eq!(
        rights(&bad_value),
        Err(PermissionsParseError::PermissionValue(PermissionParseError::Parse))
    );
    // the first fault decides
    bad_value[1].0 = "Apps";
    assert_eq!(rights(&bad_value), Err(PermissionsParseError::PermissionName));

    let mut no_text = all;
    no_text[5].1 = "";
    assert_eq!(rights(&no_text), Err(PermissionsParseError::NoText));
}

#[test]
fn rights_with_only_white_space_are_too_short() {
    let doc = XmlDocument::parse("<Rights>\n</Rights>").unwrap();
    let node = find_node_by_tag(&doc, doc.root(), "Rights").unwrap();
    assert_eq!(
        Permissions::from_rights_node(&doc, node),
        Err(PermissionsParseError::Length)
    );
}

#[test]
fn lookups_find_the_first_child_with_the_tag() {
    let doc = XmlDocument::parse("<a><b>one</b><c><b>deep</b></c><b>two</b><d/></a>").unwrap();
    let a = find_node_by_tag(&doc, doc.root(), "a").unwrap();
    assert_eq!(find_text_by_tag(&doc, a, "b"), Ok("one"));
    assert_eq!(find_text_by_tag(&doc, a, "d"), Err(Error::NoText("d")));
    assert_eq!(find_text_by_tag(&doc, a, "e"), Err(Error::FieldNotFound("e")));
    assert_eq!(
        find_node_by_tag(&doc, doc.root(), "b"),
        Err(Error::FieldNotFound("b"))
    );
    let c = find_node_by_tag(&doc, a, "c").unwrap();
    assert_eq!(find_text_by_tag(&doc, c, "b"), Ok("deep"));
    assert!(doc.has_children(a));
    assert!(!doc.has_children(find_node_by_tag(&doc, a, "d").unwrap()));
    assert_eq!(
        doc.child_texts(a, Some("b")),
        Some(vec!["one".to_string(), "two".to_string()])
    );
    assert_eq!(doc.child_texts(a, None), None);
    assert_eq!(doc.child_texts(c, None), Some(vec!["deep".to_string()]));
}

#[test]
fn a_document_is_its_nodes_in_document_order() {
    let doc = XmlDocument::parse("<a><b>one</b></a>").unwrap();
    let nodes = vec![
        XmlNode { parent: None, element: false, name: String::new(), text: None },
        XmlNode { parent: Some(0), element: true, name: "a".to_string(), text: None },
        XmlNode {
            parent: Some(1),
            element: true,
            name: "b".to_string(),
            text: Some("one".to_string()),
        },
        XmlNode {
            parent: Some(2),
            element: false,
            name: String::new(),
            text: Some("one".to_string()),
        },
    ];
    assert_eq!(doc.len(), 4);
    assert_eq!(doc, XmlDocument::from_nodes(nodes));
}
