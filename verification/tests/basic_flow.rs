use portolan::base::{
    Affordance, Evidence, FieldId, PortolanHit, RetrievalBudget, RetrievalContext,
    RetrievalOrigin, Score, StandardAffordance,
};
use portolan::query::{ParsedQuery, PortolanQuery};
use portolan::source::{CandidateBuffer, CandidateSink, RetrievalSource};

#[derive(Clone, Debug, PartialEq, Eq, Hash)]
struct DemoSubject(&'static str);

fn score(value: f32) -> Score {
    Score::from_bits(value.to_bits())
}

struct DemoSource;

impl RetrievalSource<DemoSubject> for DemoSource {
    fn retrieved(
        &self,
        query: &PortolanQuery,
        context: &RetrievalContext,
        budget: RetrievalBudget,
    ) -> Vec<PortolanHit<DemoSubject>> {
        let mut out = CandidateBuffer::new();
        self.retrieve_into(query, context, budget, &mut out);
        out.into_hits()
    }

    fn retrieve_into(
        &self,
        query: &PortolanQuery,
        _context: &RetrievalContext,
        _budget: RetrievalBudget,
        out: &mut CandidateBuffer<DemoSubject>,
    ) {
        out.push(PortolanHit {
            subject: DemoSubject("demo.command.open"),
            score: score(1.0),
            evidence: vec![Evidence {
                field: Some(FieldId::new(1)),
                contribution: score(1.0),
                kind: (),
            }],
            affordances: vec![Affordance::new(StandardAffordance::Execute)],
            origin: match &query.parsed {
                ParsedQuery::Text { .. } => RetrievalOrigin::MaterializedIndex,
                ParsedQuery::Scoped { .. } | ParsedQuery::Structured { .. } => {
                    RetrievalOrigin::Derived
                }
            },
        });
    }
}

#[test]
fn retrieves_typed_actionable_candidates() {
    let query = PortolanQuery::<(), ()>::text("open");
    let context = RetrievalContext::<()>::default();
    let budget = RetrievalBudget::interactive_default();
    let source = DemoSource;
    let mut sink = CandidateBuffer::<DemoSubject>::new();

    source.retrieve_into(&query, &context, budget, &mut sink);

    assert_eq!(sink.len(), 1);
    assert_eq!(sink.as_slice()[0].subject, DemoSubject("demo.command.open"));
    assert_eq!(
        sink.as_slice()[0].origin,
        RetrievalOrigin::MaterializedIndex
    );
    assert_eq!(
        sink.as_slice()[0].affordances[0].action,
        StandardAffordance::Execute
    );
}

#[test]
fn interactive_budget_has_documented_caps() {
    let budget = RetrievalBudget::interactive_default();
    assert_eq!(budget.max_candidates_per_source, 64);
    assert_eq!(budget.max_virtual_expansions, 16);
    assert_eq!(budget.max_nodes_scanned, 256);
    assert_eq!(budget.max_time_us, 5_000);
}

#[test]
fn context_envelope_carries_host_snapshot() {
    assert_eq!(RetrievalContext::with_host(5u8).host, Some(5));
    assert_eq!(RetrievalContext::new(Some("focus")).host, Some("focus"));
    assert_eq!(RetrievalContext::<u8>::default().host, None);
}

#[test]
fn hit_builders_replace_and_append_parts() {
    let mut hit: PortolanHit<DemoSubject> =
        PortolanHit::new(DemoSubject("a"), score(0.5), RetrievalOrigin::VisibleWorkset);
    assert!(hit.evidence.is_empty());
    assert!(hit.affordances.is_empty());

    hit.push_evidence(Evidence::new(score(0.25), ()).with_field(FieldId::new(3)));
    let hit = hit
        .with_affordances(vec![Affordance::new(StandardAffordance::Open)])
        .with_evidence(vec![Evidence::new(score(0.5), ())]);

    assert_eq!(hit.subject, DemoSubject("a"));
    assert_eq!(hit.score.to_bits(), 0.5f32.to_bits());
    assert_eq!(hit.evidence.len(), 1);
    assert_eq!(hit.evidence[0].field, None);
    assert_eq!(hit.affordances[0].action, StandardAffordance::Open);
    assert_eq!(hit.origin, RetrievalOrigin::VisibleWorkset);
}

#[test]
fn evidence_field_attaches_to_record() {
    let evidence = Evidence::new(score(0.75), "title").with_field(FieldId::new(9));
    assert_eq!(evidence.field.map(|f| f.get()), Some(9));
    assert_eq!(evidence.kind, "title");
    assert_eq!(evidence.contribution.to_bits(), 0.75f32.to_bits());
}

#[test]
fn candidate_buffer_keeps_push_order_and_appends() {
    let mut first = CandidateBuffer::<DemoSubject>::new();
    assert!(first.is_empty());
    first.push_hit(PortolanHit::new(DemoSubject("a"), score(1.0), RetrievalOrigin::Derived));
    let mut second = CandidateBuffer::<DemoSubject>::new();
    second.push_hit(PortolanHit::new(DemoSubject("b"), score(1.0), RetrievalOrigin::Derived));
    second.push_hit(PortolanHit::new(DemoSubject("c"), score(1.0), RetrievalOrigin::Derived));
    first.append(second);

    let hits = first.into_hits();
    let subjects: Vec<_> = hits.iter().map(|h| h.subject.clone()).collect();
    assert_eq!(subjects, vec![DemoSubject("a"), DemoSubject("b"), DemoSubject("c")]);
}
