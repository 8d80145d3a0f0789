use imessage_rs::db::{Chat, Handle, SortOrder};
use imessage_rs::http::{ChatQueryBody, HandleQueryBody};
use imessage_rs::json::Json;
use imessage_rs::macos::MacOsVersion;
use imessage_rs::queries::{
    handles_with_chats, no_chat_message, plan_chat_query, plan_handle_query, plan_message_query,
    service_breakdown, sort_by_last_message, spotlight_search, use_spotlight_results,
    with_items, MessageQueryBody,
};
use imessage_rs::repository::WhereClause;
use imessage_rs::sending::{
    add_sent_message, plan_create_chat, ChatCreatePlan, CreateChatBody, RequestError,
};

fn get<'a>(j: &'a Json, key: &str) -> Option<&'a Json> {
    match j {
        Json::Object(fields) => fields.iter().find(|(k, _)| k == key).map(|(_, v)| v),
        _ => None,
    }
}

fn s(v: &str) -> Json {
    Json::Str(v.to_string())
}

fn obj(pairs: Vec<(&str, Json)>) -> Json {
    Json::Object(pairs.into_iter().map(|(k, v)| (k.to_string(), v)).collect())
}

fn strings(v: &[&str]) -> Vec<String> {
    v.iter().map(|x| x.to_string()).collect()
}

#[test]
fn with_items_trimmed_and_lowercased() {
    let items = with_items(&Some(strings(&[" Chats ", "ATTACHMENT"])));
    assert_eq!(items, vec!["chats", "attachment"]);
    assert!(with_items(&None).is_empty());
}

#[test]
fn message_query_plan_reads_with_list() {
    let body = MessageQueryBody {
        chat_guid: Some("iMessage;-;+1555".to_string()),
        with_query: Some(strings(&["chats.participants", "attributedBody"])),
        limit: Some(5000),
        sort: Some("ASC".to_string()),
        ..Default::default()
    };
    let plan = plan_message_query(body, MacOsVersion::new(26, 0, 0));
    assert_eq!(plan.params.chat_guid.as_deref(), Some("any;-;+1555"));
    assert_eq!(plan.params.limit, 1000);
    assert_eq!(plan.params.offset, 0);
    assert_eq!(plan.params.sort, SortOrder::Asc);
    assert!(plan.params.with_chats);
    assert!(plan.params.with_attachments == false);
    assert!(plan.with_chat_participants);
    assert!(plan.config.parse_attributed_body);
    assert!(!plan.config.parse_payload_data);
    assert!(plan.config.load_chat_participants);
    assert_eq!(plan.params.order_by, "message.date");
}

#[test]
fn message_query_defaults() {
    let plan = plan_message_query(MessageQueryBody::default(), MacOsVersion::new(14, 0, 0));
    assert_eq!(plan.params.limit, 100);
    assert_eq!(plan.params.sort, SortOrder::Desc);
    assert!(plan.params.chat_guid.is_none());
    assert!(!plan.params.with_chats);
    assert_eq!(no_chat_message("g1"), "No chat found with GUID: g1");
}

#[test]
fn spotlight_term_from_text_clause() {
    let clauses = vec![
        WhereClause { statement: "message.is_from_me = 1".to_string(), args: vec![] },
        WhereClause {
            statement: "message.text  LIKE :term".to_string(),
            args: vec![("term".to_string(), s("%%hello%"))],
        },
    ];
    let (idx, term) = spotlight_search(&clauses).unwrap();
    assert_eq!(idx, 1);
    assert_eq!(term, "hello");

    let no_term = vec![WhereClause {
        statement: "message.text LIKE :term".to_string(),
        args: vec![("term".to_string(), s("%%"))],
    }];
    assert!(spotlight_search(&no_term).is_none());
}

#[test]
fn spotlight_results_replace_text_clause() {
    let mut clauses = vec![
        WhereClause { statement: "a".to_string(), args: vec![] },
        WhereClause { statement: "message.text LIKE :t".to_string(), args: vec![] },
        WhereClause { statement: "b".to_string(), args: vec![] },
    ];
    use_spotlight_results(&mut clauses, 1, vec![s("g1")]);
    assert_eq!(clauses.len(), 3);
    assert_eq!(clauses[0].statement, "a");
    assert_eq!(clauses[1].statement, "b");
    assert_eq!(clauses[2].statement, "message.guid IN (:...guids)");
    assert_eq!(clauses[2].args, vec![("guids".to_string(), Json::Array(vec![s("g1")]))]);
}

#[test]
fn chat_query_plan_sorts_by_last_message() {
    let body = ChatQueryBody {
        with_query: Some(strings(&["lastMessage"])),
        ..Default::default()
    };
    let plan = plan_chat_query(&body);
    assert!(plan.with_last_message);
    assert!(plan.sort_by_last_message);
    assert_eq!(plan.params.limit, Some(1000));
    let body2 = ChatQueryBody {
        with_query: Some(strings(&["lastmessage"])),
        sort: Some("name".to_string()),
        limit: Some(10),
        ..Default::default()
    };
    let plan2 = plan_chat_query(&body2);
    assert!(!plan2.sort_by_last_message);
    assert_eq!(plan2.params.limit, Some(10));
}

#[test]
fn chats_sorted_newest_first_stably() {
    let chat = |name: &str, last: Json| obj(vec![("guid", s(name)), ("lastMessage", last)]);
    let chats = vec![
        chat("a", obj(vec![("dateCreated", Json::Int(5))])),
        chat("b", Json::Null),
        chat("c", obj(vec![("dateDelivered", Json::Int(9))])),
        chat("d", obj(vec![("dateCreated", Json::Int(5))])),
    ];
    let sorted = sort_by_last_message(chats);
    let names: Vec<&Json> = sorted.iter().map(|c| get(c, "guid").unwrap()).collect();
    assert_eq!(names, vec![&s("c"), &s("a"), &s("d"), &s("b")]);
}

#[test]
fn services_counted_in_order_seen() {
    let chat = |service: Option<&str>| Chat {
        service_name: service.map(|x| x.to_string()),
        ..Default::default()
    };
    let chats = vec![chat(Some("iMessage")), chat(None), chat(Some("iMessage")), chat(Some("SMS"))];
    let b = service_breakdown(&chats);
    assert_eq!(
        b,
        obj(vec![("iMessage", Json::Int(2)), ("Unknown", Json::Int(1)), ("SMS", Json::Int(1))])
    );
}

#[test]
fn handle_query_plan_and_chats() {
    let body = HandleQueryBody {
        with_query: Some(strings(&["chats"])),
        limit: Some(2000),
        ..Default::default()
    };
    let plan = plan_handle_query(&body);
    assert!(plan.with_chats);
    assert!(!plan.with_chat_participants);
    assert_eq!(plan.params.limit, 1000);

    let h = |id: &str| Handle { id: id.to_string(), service: "iMessage".to_string(), ..Default::default() };
    let handles = vec![h("+1"), h("+2")];
    let chats = vec![
        Chat { guid: "c1".to_string(), participants: vec![h("+1")], ..Default::default() },
        Chat { guid: "c2".to_string(), participants: vec![h("+2"), h("+1")], ..Default::default() },
    ];
    let r = handles_with_chats(&handles, &chats, false);
    match r {
        Json::Array(v) => {
            assert_eq!(v.len(), 2);
            match get(&v[0], "chats").unwrap() {
                Json::Array(c) => {
                    assert_eq!(c.len(), 2);
                    assert!(get(&c[0], "participants").is_none());
                }
                _ => panic!(),
            }
            match get(&v[1], "chats").unwrap() {
                Json::Array(c) => {
                    assert_eq!(c.len(), 1);
                    assert_eq!(get(&c[0], "guid"), Some(&s("c2")));
                }
                _ => panic!(),
            }
        }
        _ => panic!(),
    }
}

fn create_body(addresses: &[&str], message: Option<&str>, method: Option<&str>) -> CreateChatBody {
    CreateChatBody {
        addresses: strings(addresses),
        message: message.map(|x| x.to_string()),
        method: method.map(|x| x.to_string()),
        service: None,
        temp_guid: None,
        subject: None,
        effect_id: None,
        attributed_body: None,
    }
}

#[test]
fn create_chat_plans() {
    assert_eq!(
        plan_create_chat(&create_body(&[], Some("hi"), None), "US").err(),
        Some(RequestError::BadRequest("addresses is required".to_string()))
    );
    assert_eq!(
        plan_create_chat(&create_body(&["a@b.c", "d@e.f"], Some("hi"), None), "US").err(),
        Some(RequestError::IMessage("Cannot create group chats via AppleScript!".to_string()))
    );
    assert_eq!(
        plan_create_chat(&create_body(&["a@b.c"], None, None), "US").err(),
        Some(RequestError::IMessage("A message is required when creating chats!".to_string()))
    );
    assert_eq!(
        plan_create_chat(&create_body(&["a@b.c"], Some(""), Some("private-api")), "US").err(),
        Some(RequestError::BadRequest(
            "A message is required when creating chats with the Private API!".to_string()
        ))
    );
    match plan_create_chat(&create_body(&["Foo@Bar.com"], Some("hi"), None), "US") {
        Ok(ChatCreatePlan::AppleScript { addresses, service, message }) => {
            assert_eq!(addresses, vec!["foo@bar.com"]);
            assert_eq!(service, "iMessage");
            assert_eq!(message, "hi");
        }
        _ => panic!("expected AppleScript"),
    }
    match plan_create_chat(&create_body(&["(202) 555-0100", "X@Y.Z"], Some("hi"), Some("private-api")), "US") {
        Ok(ChatCreatePlan::PrivateApi(a)) => {
            assert_eq!(a.name, "create-chat");
            assert_eq!(
                get(&a.data, "addresses"),
                Some(&Json::Array(vec![s("+12025550100"), s("x@y.z")]))
            );
        }
        _ => panic!("expected the Private API"),
    }
}

#[test]
fn sent_message_added_to_chat() {
    let mut chat = obj(vec![("guid", s("c"))]);
    add_sent_message(&mut chat, obj(vec![("guid", s("m"))]), Some("t"));
    assert_eq!(
        get(&chat, "messages"),
        Some(&Json::Array(vec![obj(vec![("guid", s("m")), ("tempGuid", s("t"))])]))
    );
}
