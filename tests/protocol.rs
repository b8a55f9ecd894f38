use oai::err::{Error, ErrorKind};
use oai::get_record::GetRecord;
use oai::harvest::{Harvest, HarvestState};
use oai::list_records::ListRecords;
use oai::metadata::{DcFields, Format, OaiDc, Xoai, XoaiElements};
use oai::request::{get_record_params, list_records_params, query_string, resumption_params, Params};
use oai::text::{parse_u64, text_eq};
use oai::time::Timestamp;
use oai::xml::XmlDoc;

const NEW_YEAR_2020: i64 = 1577836800;

fn get_record_doc(records: &str) -> String {
    format!(
        "<OAI-PMH xmlns=\"http://www.openarchives.org/OAI/2.0/\">\
         <responseDate>2020-01-01T00:00:00Z</responseDate>\
         <request verb=\"GetRecord\">http://example.org/oai</request>\
         <GetRecord>{}</GetRecord></OAI-PMH>",
        records
    )
}

fn dc_record(id: &str, title: &str) -> String {
    format!(
        "<record><header><identifier>{}</identifier>\
         <datestamp>2019-05-06T07:08:09Z</datestamp>\
         <setSpec>col_1</setSpec><setSpec>col_2</setSpec></header>\
         <metadata><oai_dc:dc xmlns:oai_dc=\"http://www.openarchives.org/OAI/2.0/oai_dc/\" \
         xmlns:dc=\"http://purl.org/dc/elements/1.1/\">\
         <dc:title>{}</dc:title><dc:creator>A</dc:creator><dc:creator/></oai_dc:dc>\
         </metadata></record>",
        id, title
    )
}

fn page_doc(records: &str, token: &str) -> String {
    format!(
        "<OAI-PMH><responseDate>2020-01-01T00:00:00Z</responseDate>\
         <ListRecords>{}{}</ListRecords></OAI-PMH>",
        records, token
    )
}

fn plain_record(id: &str) -> String {
    format!(
        "<record><header><identifier>{}</identifier>\
         <datestamp>2020-01-01T00:00:00Z</datestamp></header>\
         <metadata><dc><title>{}</title></dc></metadata></record>",
        id, id
    )
}

fn titles(m: &DcFields, name: &str) -> Vec<Option<String>> {
    m.get(name).unwrap().clone()
}

fn ids(records: &[oai::metadata::Record<DcFields>]) -> Vec<String> {
    records.iter().map(|r| r.header.identifier.clone()).collect()
}

#[test]
fn get_record_returns_the_record() {
    let text = get_record_doc(&dc_record("oai:x:1", "Title"));
    let r = GetRecord::<DcFields>::build::<OaiDc>("oai:x:1", &text).unwrap();
    assert_eq!(r.response_date, Timestamp { seconds: NEW_YEAR_2020, nanos: 0 });
    assert_eq!(r.record.header.identifier, "oai:x:1");
    assert_eq!(r.record.header.datestamp, Timestamp { seconds: 1557126489, nanos: 0 });
    assert_eq!(r.record.header.set_spec, vec!["col_1".to_string(), "col_2".to_string()]);
    assert_eq!(titles(&r.record.metadata, "title"), vec![Some("Title".to_string())]);
    assert_eq!(titles(&r.record.metadata, "creator"), vec![Some("A".to_string()), None]);
    assert_eq!(r.record.metadata.entries().len(), 2);
}

#[test]
fn get_record_takes_the_first_record() {
    let text = get_record_doc(&format!("{}{}", dc_record("first", "T1"), dc_record("second", "T2")));
    let r = GetRecord::<DcFields>::build::<OaiDc>("first", &text).unwrap();
    assert_eq!(r.record.header.identifier, "first");
}

#[test]
fn get_record_without_record_is_not_found() {
    let text = get_record_doc("");
    let r = GetRecord::<DcFields>::build::<OaiDc>("oai:x:404", &text);
    assert_eq!(r.unwrap_err(), Error::NotFound("oai:x:404".to_string()));
}

#[test]
fn malformed_markup_is_invalid_response() {
    let r = GetRecord::<DcFields>::build::<OaiDc>("id", "<OAI-PMH><responseDate>");
    assert_eq!(r.unwrap_err().kind(), ErrorKind::InvalidResponse);
    let p = ListRecords::<DcFields>::build::<OaiDc>("not xml at all <");
    assert_eq!(p.unwrap_err().kind(), ErrorKind::InvalidResponse);
    let a = ListRecords::<DcFields>::build::<OaiDc>("<a><b></a>").unwrap_err();
    let b = ListRecords::<DcFields>::build::<OaiDc>("<a><b></a>").unwrap_err();
    assert_eq!(a, b);
    assert!(!a.message().is_empty());
}

#[test]
fn missing_response_date_is_internal() {
    let text = "<OAI-PMH><GetRecord></GetRecord></OAI-PMH>";
    let r = GetRecord::<DcFields>::build::<OaiDc>("id", text);
    assert_eq!(r.unwrap_err(), Error::Internal("No such tag: responseDate".to_string()));
    let empty = "<OAI-PMH><responseDate/><GetRecord></GetRecord></OAI-PMH>";
    let r = GetRecord::<DcFields>::build::<OaiDc>("id", empty);
    assert_eq!(r.unwrap_err(), Error::Internal("No text for: responseDate".to_string()));
}

#[test]
fn missing_section_is_internal() {
    let text = "<OAI-PMH><responseDate>2020-01-01T00:00:00Z</responseDate></OAI-PMH>";
    let r = GetRecord::<DcFields>::build::<OaiDc>("id", text);
    assert_eq!(r.unwrap_err(), Error::Internal("No such tag: GetRecord".to_string()));
    let p = ListRecords::<DcFields>::build::<OaiDc>(text);
    assert_eq!(p.unwrap_err(), Error::Internal("No such tag: ListRecords".to_string()));
}

#[test]
fn record_without_identifier_is_internal() {
    let rec = "<record><header><datestamp>2020-01-01T00:00:00Z</datestamp></header>\
               <metadata><dc/></metadata></record>";
    let r = GetRecord::<DcFields>::build::<OaiDc>("id", &get_record_doc(rec));
    assert_eq!(r.unwrap_err(), Error::Internal("No such tag: identifier".to_string()));
}

#[test]
fn unreadable_datestamp_is_internal() {
    let rec = "<record><header><identifier>a</identifier><datestamp>yesterday</datestamp>\
               </header><metadata><dc/></metadata></record>";
    let p = ListRecords::<DcFields>::build::<OaiDc>(&page_doc(rec, ""));
    assert_eq!(p.unwrap_err(), Error::Internal("No text for: datestamp".to_string()));
}

#[test]
fn malformed_record_fails_the_page() {
    let bad = "<record><header><identifier>b</identifier></header></record>";
    let text = page_doc(&format!("{}{}", plain_record("a"), bad), "");
    let p = ListRecords::<DcFields>::build::<OaiDc>(&text);
    assert_eq!(p.unwrap_err(), Error::Internal("No such tag: datestamp".to_string()));
}

#[test]
fn page_without_token_has_no_next() {
    let text = page_doc(&plain_record("a"), "");
    let p = ListRecords::<DcFields>::build::<OaiDc>(&text).unwrap();
    assert!(p.resumption_token.is_none());
    assert!(!p.has_next());
    assert_eq!(p.get_next().unwrap_err(), Error::Internal("No more results".to_string()));
}

#[test]
fn token_without_cursor_has_no_next() {
    let token = "<resumptionToken completeListSize=\"10\">abc</resumptionToken>";
    let p = ListRecords::<DcFields>::build::<OaiDc>(&page_doc(&plain_record("a"), token)).unwrap();
    assert!(p.resumption_token.is_none());
    assert!(!p.has_next());
}

#[test]
fn token_without_list_size_has_no_next() {
    let token = "<resumptionToken cursor=\"0\">abc</resumptionToken>";
    let p = ListRecords::<DcFields>::build::<OaiDc>(&page_doc(&plain_record("a"), token)).unwrap();
    assert!(!p.has_next());
}

#[test]
fn token_with_unreadable_number_has_no_next() {
    let token = "<resumptionToken completeListSize=\"ten\" cursor=\"0\">abc</resumptionToken>";
    let p = ListRecords::<DcFields>::build::<OaiDc>(&page_doc(&plain_record("a"), token)).unwrap();
    assert!(!p.has_next());
}

#[test]
fn token_with_value_has_next() {
    let token = "<resumptionToken completeListSize=\"10\" cursor=\"2\">abc 1</resumptionToken>";
    let p = ListRecords::<DcFields>::build::<OaiDc>(&page_doc(&plain_record("a"), token)).unwrap();
    assert!(p.has_next());
    let t = p.resumption_token.as_ref().unwrap();
    assert_eq!(t.complete_list_size(), 10);
    assert_eq!(t.cursor(), 2);
    assert_eq!(t.token_value(), &Some("abc 1".to_string()));
    let params = p.get_next().unwrap();
    assert_eq!(
        params,
        vec![
            ("resumptionToken".to_string(), "abc 1".to_string()),
            ("verb".to_string(), "ListRecords".to_string())
        ]
    );
    assert_eq!(query_string(&params).unwrap(), "resumptionToken=abc+1&verb=ListRecords");
}

#[test]
fn token_without_value_ends_the_listing() {
    let token = "<resumptionToken completeListSize=\"10\" cursor=\"9\"/>";
    let p = ListRecords::<DcFields>::build::<OaiDc>(&page_doc(&plain_record("a"), token)).unwrap();
    let t = p.resumption_token.as_ref().unwrap();
    assert_eq!(t.token_value(), &None);
    assert!(!p.has_next());
}

#[test]
fn parsing_twice_gives_equal_results() {
    let token = "<resumptionToken completeListSize=\"3\" cursor=\"0\">t</resumptionToken>";
    let text = page_doc(&format!("{}{}", plain_record("a"), plain_record("b")), token);
    let p = ListRecords::<DcFields>::build::<OaiDc>(&text).unwrap();
    let q = ListRecords::<DcFields>::build::<OaiDc>(&text).unwrap();
    assert_eq!(p.response_date, q.response_date);
    assert_eq!(ids(&p.records), ids(&q.records));
    assert_eq!(p.records[1].metadata.entries(), q.records[1].metadata.entries());
    assert_eq!(p.next_token(), q.next_token());
}

#[test]
fn page_keeps_document_order() {
    let text = page_doc(&format!("{}{}{}", plain_record("x"), plain_record("y"), plain_record("z")), "");
    let p = ListRecords::<DcFields>::build::<OaiDc>(&text).unwrap();
    assert_eq!(ids(&p.records), vec!["x", "y", "z"]);
}

#[test]
fn dc_repeated_titles_are_grouped() {
    let text = page_doc(
        "<record><header><identifier>r</identifier><datestamp>2020-01-01T00:00:00Z</datestamp>\
         </header><metadata><dc><title>T1</title><title>T2</title></dc></metadata></record>",
        "",
    );
    let p = ListRecords::<DcFields>::build::<OaiDc>(&text).unwrap();
    let m = &p.records[0].metadata;
    assert_eq!(
        m.entries(),
        &vec![("title".to_string(), vec![Some("T1".to_string()), Some("T2".to_string())])]
    );
}

#[test]
fn dc_fields_keep_first_appearance_order() {
    let text = page_doc(
        "<record><header><identifier>r</identifier><datestamp>2020-01-01T00:00:00Z</datestamp>\
         </header><metadata><dc><b>1</b><a>2</a><b>3</b></dc><dc><a/></dc></metadata></record>",
        "",
    );
    let p = ListRecords::<DcFields>::build::<OaiDc>(&text).unwrap();
    let m = &p.records[0].metadata;
    assert_eq!(
        m.entries(),
        &vec![
            ("b".to_string(), vec![Some("1".to_string()), Some("3".to_string())]),
            ("a".to_string(), vec![Some("2".to_string()), None]),
        ]
    );
    assert!(m.get("c").is_none());
}

fn xoai_page(metadata: &str) -> String {
    page_doc(
        &format!(
            "<record><header><identifier>r</identifier><datestamp>2020-01-01T00:00:00Z</datestamp>\
             </header><metadata><metadata>{}</metadata></metadata></record>",
            metadata
        ),
        "",
    )
}

#[test]
fn xoai_nested_example() {
    let text = xoai_page("<element name=\"root\"><field name=\"f\">v</field><element name=\"child\"/></element>");
    let p = ListRecords::<XoaiElements>::build::<Xoai>(&text).unwrap();
    let els = &p.records[0].metadata.0;
    assert_eq!(els.len(), 1);
    let root = &els[0];
    assert_eq!(root.name, "root");
    assert_eq!(root.fields, Some(vec![(Some("f".to_string()), Some("v".to_string()))]));
    let children = root.children.as_ref().unwrap();
    assert_eq!(children.len(), 1);
    assert_eq!(children[0].name, "child");
    assert_eq!(children[0].fields, None);
    assert!(children[0].children.is_none());
}

#[test]
fn xoai_field_without_name_or_text() {
    let text = xoai_page("<element name=\"e\"><field/><field name=\"n\"/></element>");
    let p = ListRecords::<XoaiElements>::build::<Xoai>(&text).unwrap();
    let e = &p.records[0].metadata.0[0];
    assert_eq!(e.fields, Some(vec![(None, None), (Some("n".to_string()), None)]));
}

#[test]
fn xoai_element_without_name_is_internal() {
    let text = xoai_page("<element><field name=\"f\">v</field></element>");
    let p = ListRecords::<XoaiElements>::build::<Xoai>(&text);
    assert_eq!(p.unwrap_err(), Error::Internal("No name".to_string()));
}

#[test]
fn xoai_too_deep_is_internal() {
    let depth = oai::xoai::MAX_DEPTH + 1;
    let mut inner = String::new();
    for _ in 0..depth {
        inner.push_str("<element name=\"n\">");
    }
    for _ in 0..depth {
        inner.push_str("</element>");
    }
    let p = ListRecords::<XoaiElements>::build::<Xoai>(&xoai_page(&inner));
    assert_eq!(p.unwrap_err(), Error::Internal("Elements nested too deep".to_string()));
    let mut ok = String::new();
    for _ in 0..oai::xoai::MAX_DEPTH {
        ok.push_str("<element name=\"n\">");
    }
    for _ in 0..oai::xoai::MAX_DEPTH {
        ok.push_str("</element>");
    }
    assert!(ListRecords::<XoaiElements>::build::<Xoai>(&xoai_page(&ok)).is_ok());
}

fn token(value: Option<&str>) -> String {
    match value {
        Some(v) => format!("<resumptionToken completeListSize=\"5\" cursor=\"0\">{}</resumptionToken>", v),
        None => "<resumptionToken completeListSize=\"5\" cursor=\"4\"/>".to_string(),
    }
}

/// Drives a harvest over fixture pages, answering each request with the
/// page for its token; returns the requests made and the records.
fn run_harvest(pages: &[(Option<&str>, String)]) -> (Vec<Vec<(String, String)>>, Vec<String>) {
    let mut h: Harvest<DcFields> = Harvest::new();
    let mut requests = Vec::new();
    let params = Params::default();
    while let Some(req) = h.next_params::<OaiDc>(&params).unwrap() {
        let key = req.iter().find(|p| p.0 == "resumptionToken").map(|p| p.1.clone());
        let (_, text) = pages.iter().find(|p| p.0.map(String::from) == key).unwrap();
        requests.push(req);
        let page = ListRecords::<DcFields>::build::<OaiDc>(text).unwrap();
        h.accept(page);
        assert!(requests.len() <= pages.len());
    }
    (requests, ids(&h.into_records()))
}

#[test]
fn harvest_keeps_page_order() {
    let pages = vec![
        (None, page_doc(&format!("{}{}", plain_record("a"), plain_record("b")), &token(Some("p2")))),
        (Some("p2"), page_doc(&plain_record("c"), &token(Some("p3")))),
        (Some("p3"), page_doc(&format!("{}{}", plain_record("d"), plain_record("e")), &token(None))),
    ];
    let (_, records) = run_harvest(&pages);
    assert_eq!(records, vec!["a", "b", "c", "d", "e"]);
}

#[test]
fn harvest_three_pages_stops_at_absent_value() {
    let pages = vec![
        (None, page_doc(&plain_record("a"), &token(Some("t2")))),
        (Some("t2"), page_doc(&plain_record("b"), &token(Some("t3")))),
        (Some("t3"), page_doc(&plain_record("c"), &token(None))),
    ];
    let (requests, records) = run_harvest(&pages);
    assert_eq!(requests.len(), 3);
    assert_eq!(
        requests[0],
        vec![
            ("metadataPrefix".to_string(), "oai_dc".to_string()),
            ("verb".to_string(), "ListRecords".to_string())
        ]
    );
    assert_eq!(requests[2], resumption_params("t3"));
    assert_eq!(records, vec!["a", "b", "c"]);
}

#[test]
fn harvest_states() {
    let mut h: Harvest<DcFields> = Harvest::new();
    assert!(matches!(h.state(), HarvestState::Start));
    let first = ListRecords::<DcFields>::build::<OaiDc>(&page_doc(&plain_record("a"), &token(Some("n")))).unwrap();
    h.accept(first);
    assert!(matches!(h.state(), HarvestState::Continuing(t) if t == "n"));
    assert_eq!(h.records().len(), 1);
    let last = ListRecords::<DcFields>::build::<OaiDc>(&page_doc("", "")).unwrap();
    h.accept(last);
    assert!(h.is_done());
    assert!(h.next_params::<OaiDc>(&Params::default()).unwrap().is_none());
}

#[test]
fn get_record_query_string() {
    let params = get_record_params::<OaiDc>("oai:x:1/2");
    assert_eq!(
        query_string(&params).unwrap(),
        "identifier=oai%3Ax%3A1%2F2&metadataPrefix=oai_dc&verb=GetRecord"
    );
}

#[test]
fn list_records_query_string_with_filters() {
    let params = Params {
        from: Some(Timestamp { seconds: NEW_YEAR_2020, nanos: 0 }),
        until: None,
        set: Some("col_116099117_11012".to_string()),
    };
    let pairs = list_records_params::<Xoai>(&params).unwrap();
    assert_eq!(
        query_string(&pairs).unwrap(),
        "from=2020-01-01T00%3A00%3A00Z&set=col_116099117_11012&metadataPrefix=xoai&verb=ListRecords"
    );
    let none = list_records_params::<Xoai>(&Params::default()).unwrap();
    assert_eq!(query_string(&none).unwrap(), "metadataPrefix=xoai&verb=ListRecords");
}

#[test]
fn time_out_of_range_cannot_be_written() {
    let params = Params {
        from: None,
        until: Some(Timestamp { seconds: i64::MAX, nanos: 0 }),
        set: None,
    };
    assert_eq!(
        list_records_params::<OaiDc>(&params).unwrap_err(),
        Error::Internal("Time out of range".to_string())
    );
}

#[test]
fn timestamps_read_and_write() {
    assert_eq!(
        Timestamp::from_text("2020-01-01T00:00:00Z"),
        Some(Timestamp { seconds: NEW_YEAR_2020, nanos: 0 })
    );
    assert_eq!(
        Timestamp::from_text("2020-01-01T01:00:00.5+01:00"),
        Some(Timestamp { seconds: NEW_YEAR_2020, nanos: 500_000_000 })
    );
    assert_eq!(Timestamp::from_text("2020-01-01"), None);
    let t = Timestamp { seconds: NEW_YEAR_2020, nanos: 0 };
    assert_eq!(t.to_text(), Some("2020-01-01T00:00:00Z".to_string()));
}

#[test]
fn prefixes() {
    assert_eq!(OaiDc::as_str(), "oai_dc");
    assert_eq!(Xoai::as_str(), "xoai");
}

#[test]
fn numbers() {
    assert_eq!(parse_u64("0"), Some(0));
    assert_eq!(parse_u64("+42"), Some(42));
    assert_eq!(parse_u64("18446744073709551615"), Some(u64::MAX));
    assert_eq!(parse_u64("18446744073709551616"), None);
    assert_eq!(parse_u64(""), None);
    assert_eq!(parse_u64("+"), None);
    assert_eq!(parse_u64("-1"), None);
    assert_eq!(parse_u64("1a"), None);
}

#[test]
fn text_equality() {
    assert!(text_eq("record", "record"));
    assert!(!text_eq("record", "records"));
    assert!(!text_eq("a", "b"));
}

#[test]
fn document_nodes() {
    let doc = XmlDoc::from_text("<a x=\"1\"><b>t</b><!-- c --><b/></a>").unwrap();
    let root = doc.root_element().unwrap();
    assert_eq!(doc.node(root).tag, "a");
    assert_eq!(doc.attribute(root, "x"), Some("1".to_string()));
    assert_eq!(doc.attribute(root, "y"), None);
    let bs = doc.children_tagged(root, "b");
    assert_eq!(bs.len(), 2);
    assert_eq!(doc.find_first_child(root, "b").unwrap(), bs[0]);
    assert_eq!(doc.find_first_child_text(root, "b").unwrap(), "t");
    assert_eq!(doc.element_children(root), bs);
    assert_eq!(doc.find_first_child(root, "c").unwrap_err(), Error::Internal("No such tag: c".to_string()));
    let second = bs[1];
    assert_eq!(doc.find_first_child_text(root, "c").unwrap_err(), Error::Internal("No such tag: c".to_string()));
    assert_eq!(doc.node(second).text, None);
    let doc2 = XmlDoc::from_text("<a><b/></a>").unwrap();
    let root2 = doc2.root_element().unwrap();
    assert_eq!(doc2.find_first_child_text(root2, "b").unwrap_err(), Error::Internal("No text for: b".to_string()));
}

#[test]
fn nodes_out_of_range_are_refused() {
    let node = oai::xml::XmlNode {
        element: true,
        tag: "a".to_string(),
        attributes: vec![],
        text: None,
        children: vec![3],
    };
    assert!(XmlDoc::from_nodes(vec![node]).is_none());
}

#[test]
fn error_constructors() {
    assert_eq!(oai::err::invalid_argument("u"), Error::InvalidArgument("u".to_string()));
    assert_eq!(oai::err::invalid_response("r"), Error::InvalidResponse("r".to_string()));
    assert_eq!(oai::err::internal("i"), Error::Internal("i".to_string()));
    assert_eq!(oai::err::not_found("n").message(), "n");
}

#[test]
fn error_text() {
    assert_eq!(Error::NotFound("oai:x:1".to_string()).to_text(), "Not found: 'oai:x:1'");
    assert_eq!(Error::Internal("No such tag".to_string()).to_text(), "Internal error: 'No such tag'");
    assert_eq!(Error::InvalidArgument("u".to_string()).to_text(), "Invalid argument: 'u'");
    assert_eq!(Error::InvalidResponse("r".to_string()).to_text(), "Invalid response: 'r'");
}

#[test]
fn dc_fields_built_by_hand() {
    let mut m = DcFields::new();
    m.add("title".to_string(), Some("T1".to_string()));
    m.add("creator".to_string(), None);
    m.add("title".to_string(), Some("T2".to_string()));
    assert_eq!(
        m.entries(),
        &vec![
            ("title".to_string(), vec![Some("T1".to_string()), Some("T2".to_string())]),
            ("creator".to_string(), vec![None]),
        ]
    );
}
