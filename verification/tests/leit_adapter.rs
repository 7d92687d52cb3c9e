use portolan::base::{RetrievalOrigin, Score};
use portolan::leit::{push_mapped_hits, QueryLowerer, SubjectMapper, TextQueryLowerer};
use portolan::query::{ParsedQuery, PortolanQuery};
use portolan::source::CandidateBuffer;

#[derive(Clone, Debug, PartialEq, Eq, Hash)]
struct DemoSubject(&'static str);

struct TableMapper;

impl SubjectMapper<DemoSubject> for TableMapper {
    fn maps_to(&self, doc_id: u32) -> Option<DemoSubject> {
        self.map_subject(doc_id)
    }

    fn map_subject(&self, doc_id: u32) -> Option<DemoSubject> {
        match doc_id {
            1 => Some(DemoSubject("command.open_scene")),
            2 => Some(DemoSubject("command.inspect_object")),
            _ => None,
        }
    }
}

fn score(value: f32) -> Score {
    Score::from_bits(value.to_bits())
}

#[test]
fn text_lowerer_uses_parsed_text() {
    let lowerer = TextQueryLowerer;
    let text = PortolanQuery::<(), ()>::text("open");
    assert_eq!(lowerer.lower_query(&text), "open");
    let scoped = PortolanQuery::<u8, ()>::new("raw", ParsedQuery::Scoped { scope: 1, text: "scoped".into() });
    assert_eq!(lowerer.lower_query(&scoped), "scoped");
    let structured = PortolanQuery::<(), u8>::new(
        "raw",
        ParsedQuery::Structured { filters: vec![1], text: "filtered".into() },
    );
    assert_eq!(lowerer.lower_query(&structured), "filtered");
}

#[test]
fn mapped_hits_keep_backend_order_and_skip_unknown_documents() {
    let mut out = CandidateBuffer::<DemoSubject>::new();
    push_mapped_hits(
        &TableMapper,
        &[(2, score(0.9)), (7, score(0.8)), (1, score(0.5))],
        &mut out,
    );
    let hits = out.as_slice();
    assert_eq!(hits.len(), 2);
    assert_eq!(hits[0].subject, DemoSubject("command.inspect_object"));
    assert_eq!(hits[0].score, score(0.9));
    assert_eq!(hits[1].subject, DemoSubject("command.open_scene"));
    assert_eq!(hits[1].score, score(0.5));
    assert!(hits.iter().all(|hit| hit.origin == RetrievalOrigin::MaterializedIndex
        && hit.evidence.is_empty()
        && hit.affordances.is_empty()));
}

#[test]
fn mapped_hits_append_after_existing_candidates() {
    let mut out = CandidateBuffer::<DemoSubject>::new();
    push_mapped_hits(&TableMapper, &[(1, score(1.0))], &mut out);
    push_mapped_hits(&TableMapper, &[], &mut out);
    push_mapped_hits(&TableMapper, &[(2, score(0.25))], &mut out);
    let subjects: Vec<_> = out.as_slice().iter().map(|hit| hit.subject.0).collect();
    assert_eq!(subjects, vec!["command.open_scene", "command.inspect_object"]);
}
