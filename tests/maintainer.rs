use podium::analyzer::{analyze, extractors_for, index_in_memory, Analyzer};
use podium::digest::calculate_hash;
use podium::document::{unique_hit, DocumentSchema, IndexOp, IndexedDoc, InvariantViolation};
use podium::facet::{from_facet_value, to_facet_value};
use podium::maintainer::{
    finish_observe, join_bodies, lists_location, plan_observe, plan_remove, ObservePlan,
};
use podium::record::{new_file_to_process, FileToProcess};
use podium::searcher::{project, StoredDocument, SEARCH_LIMIT};
use podium::watcher::{actions_for_event, should_index, WatchAction, WatchEvent};

/// A store that applies staged operations the way the full-text index does.
struct Store {
    docs: Vec<IndexedDoc>,
}

impl Store {
    fn by_hash(&self, h: &str) -> Option<IndexedDoc> {
        let hits: Vec<&IndexedDoc> = self.docs.iter().filter(|d| d.hash == h).collect();
        unique_hit(hits.clone(), hits.len()).unwrap().map(copy_doc)
    }

    fn by_location(&self, l: &str) -> Option<IndexedDoc> {
        let hits: Vec<&IndexedDoc> =
            self.docs.iter().filter(|d| d.locations.iter().any(|x| x == l)).collect();
        unique_hit(hits.clone(), hits.len()).unwrap().map(copy_doc)
    }

    fn apply(&mut self, ops: Vec<IndexOp>) {
        for op in ops {
            match op {
                IndexOp::Add(d) => self.docs.push(d),
                IndexOp::DeleteByHash(h) => self.docs.retain(|d| d.hash != h),
                IndexOp::DeleteByLocation(l) => {
                    self.docs.retain(|d| !d.locations.iter().any(|x| *x == l))
                }
            }
        }
    }

    fn observe(&mut self, file: &FileToProcess) {
        let location = to_facet_value(&file.path);
        match plan_observe(&self.by_hash(&file.hash), &location, &file.hash) {
            ObservePlan::Stage(ops) => self.apply(ops),
            ObservePlan::Analyse => {
                let ext = file.path.rsplit('.').next().unwrap();
                let outcomes: Vec<_> = extractors_for(ext)
                    .into_iter()
                    .filter_map(|e| index_in_memory(e, file))
                    .collect();
                let fields = analyze(&outcomes);
                let ops = finish_observe(&fields, &location, &file.hash);
                self.apply(ops);
            }
        }
    }

    fn remove(&mut self, path: &str) {
        let location = to_facet_value(path);
        let ops = plan_remove(&self.by_location(&location), &location);
        self.apply(ops);
    }

    fn event(&mut self, event: &WatchEvent, contents: &[u8]) {
        for action in actions_for_event(event) {
            match action {
                WatchAction::Observe(p) => {
                    self.observe(&new_file_to_process(p, contents.to_vec()))
                }
                WatchAction::Remove(p) => self.remove(&p),
            }
        }
    }

    fn decoded_locations(&self, i: usize) -> Vec<String> {
        self.docs[i].locations.iter().map(|l| from_facet_value(l)).collect()
    }

    fn search(&self, word: &str) -> Vec<&IndexedDoc> {
        self.docs
            .iter()
            .filter(|d| d.body.split(' ').any(|w| w == word) || d.title == word)
            .take(SEARCH_LIMIT)
            .collect()
    }
}

fn copy_doc(d: &IndexedDoc) -> IndexedDoc {
    IndexedDoc {
        title: d.title.clone(),
        hash: d.hash.clone(),
        locations: d.locations.clone(),
        body: d.body.clone(),
    }
}

fn file(path: &str, contents: &str) -> FileToProcess {
    new_file_to_process(path.to_string(), contents.as_bytes().to_vec())
}

#[test]
fn plain_text_round_trip() {
    let mut store = Store { docs: Vec::new() };
    let supported = Analyzer::new().supported_extensions;
    assert!(should_index("/tmp/t/file.txt", false, &supported));
    store.observe(&file("/tmp/t/file.txt", "this is a file with some contents in it"));
    let hits = store.search("contents");
    assert_eq!(hits.len(), 1);
    assert_eq!(hits[0].title, "file.txt");
    assert_eq!(hits[0].body, "this is a file with some contents in it");
}

#[test]
fn csv_header_indexing() {
    let mut store = Store { docs: Vec::new() };
    store.observe(&file("/tmp/t/data.csv", "first_name,last_name,street,city,state,postal_code\n1,2,3,4,5,6\n"));
    let hits = store.search("postal_code");
    assert_eq!(hits.len(), 1);
    assert!(hits[0].body.contains("first_name last_name street city state postal_code "));
}

#[test]
fn dedup_across_paths() {
    let mut store = Store { docs: Vec::new() };
    store.observe(&file("/tmp/t/a.txt", "same words"));
    store.observe(&file("/tmp/t/b.txt", "same words"));
    assert_eq!(store.docs.len(), 1);
    assert_eq!(store.decoded_locations(0), vec!["/tmp/t/a.txt", "/tmp/t/b.txt"]);
    store.observe(&file("/tmp/t/b.txt", "same words"));
    assert_eq!(store.docs.len(), 1);
    assert_eq!(store.docs[0].locations.len(), 2);
}

#[test]
fn location_prune() {
    let mut store = Store { docs: Vec::new() };
    store.observe(&file("/tmp/t/a.txt", "same words"));
    store.observe(&file("/tmp/t/b.txt", "same words"));
    store.event(&WatchEvent::Remove("/tmp/t/a.txt".to_string()), b"");
    assert_eq!(store.docs.len(), 1);
    assert_eq!(store.decoded_locations(0), vec!["/tmp/t/b.txt"]);
    assert_eq!(store.docs[0].body, "same words");
    store.remove("/tmp/t/b.txt");
    assert_eq!(store.docs.len(), 0);
}

#[test]
fn modify_replaces_body() {
    let mut store = Store { docs: Vec::new() };
    store.observe(&file("/tmp/t/x.txt", "alpha"));
    assert_eq!(store.search("alpha").len(), 1);
    store.event(&WatchEvent::Write("/tmp/t/x.txt".to_string()), b"beta");
    assert_eq!(store.search("alpha").len(), 0);
    let hits = store.search("beta");
    assert_eq!(hits.len(), 1);
    assert_eq!(hits[0].title, "x.txt");
}

#[test]
fn modify_equals_remove_then_observe() {
    let mut a = Store { docs: Vec::new() };
    let mut b = Store { docs: Vec::new() };
    for s in [&mut a, &mut b] {
        s.observe(&file("/tmp/t/x.txt", "one"));
        s.observe(&file("/tmp/t/y.txt", "one"));
    }
    a.event(&WatchEvent::Write("/tmp/t/x.txt".to_string()), b"two");
    b.remove("/tmp/t/x.txt");
    b.observe(&file("/tmp/t/x.txt", "two"));
    assert_eq!(a.docs.len(), b.docs.len());
    for i in 0..a.docs.len() {
        assert_eq!(a.docs[i].hash, b.docs[i].hash);
        assert_eq!(a.docs[i].locations, b.docs[i].locations);
        assert_eq!(a.docs[i].body, b.docs[i].body);
    }
}

#[test]
fn unsupported_extension_ignored() {
    let mut store = Store { docs: Vec::new() };
    let supported = Analyzer::new().supported_extensions;
    assert!(!should_index("/tmp/t/y.bin", false, &supported));
    store.observe(&file("/tmp/t/y.bin", "anything"));
    assert_eq!(store.docs.len(), 0);
    assert_eq!(store.search("y.bin").len(), 0);
}

#[test]
fn rename_moves_the_location() {
    let mut store = Store { docs: Vec::new() };
    store.observe(&file("/tmp/t/old.txt", "moving"));
    store.event(
        &WatchEvent::Rename("/tmp/t/old.txt".to_string(), "/tmp/t/new.txt".to_string()),
        b"moving",
    );
    assert_eq!(store.docs.len(), 1);
    assert_eq!(store.decoded_locations(0), vec!["/tmp/t/new.txt"]);
    assert_eq!(store.docs[0].title, "new.txt");
}

#[test]
fn hashes_and_locations_stay_unique() {
    let mut store = Store { docs: Vec::new() };
    store.observe(&file("/tmp/t/a.txt", "one"));
    store.observe(&file("/tmp/t/b.txt", "two"));
    store.observe(&file("/tmp/t/c.txt", "one"));
    store.event(&WatchEvent::Write("/tmp/t/a.txt".to_string()), b"two");
    store.remove("/tmp/t/c.txt");
    store.event(&WatchEvent::Create("/tmp/t/d.txt".to_string()), b"one");
    let mut hashes: Vec<&String> = store.docs.iter().map(|d| &d.hash).collect();
    hashes.sort();
    hashes.dedup();
    assert_eq!(hashes.len(), store.docs.len());
    let mut locs: Vec<&String> = store.docs.iter().flat_map(|d| d.locations.iter()).collect();
    let n = locs.len();
    locs.sort();
    locs.dedup();
    assert_eq!(locs.len(), n);
    assert!(store.docs.iter().all(|d| !d.locations.is_empty()));
}

#[test]
fn plan_observe_skips_known_location() {
    let doc = IndexedDoc {
        title: "a.txt".to_string(),
        hash: "h".to_string(),
        locations: vec!["tmp\0a.txt".to_string()],
        body: "b ".to_string(),
    };
    match plan_observe(&Some(copy_doc(&doc)), &"tmp\0a.txt".to_string(), &"h".to_string()) {
        ObservePlan::Stage(ops) => assert!(ops.is_empty()),
        ObservePlan::Analyse => panic!("known content needs no analysis"),
    }
    assert!(matches!(
        plan_observe(&None, &"tmp\0a.txt".to_string(), &"h".to_string()),
        ObservePlan::Analyse
    ));
    assert!(lists_location(&doc.locations, &"tmp\0a.txt".to_string()));
    assert!(!lists_location(&doc.locations, &"tmp\0b.txt".to_string()));
}

#[test]
fn new_document_joins_every_body() {
    let fields = vec![
        DocumentSchema { name: "first".to_string(), body: "one".to_string() },
        DocumentSchema { name: "second".to_string(), body: "two".to_string() },
    ];
    assert_eq!(join_bodies(&fields), "one two");
    let ops = finish_observe(&fields, &"tmp\0p.jpg".to_string(), &"h".to_string());
    assert_eq!(ops.len(), 1);
    match &ops[0] {
        IndexOp::Add(d) => {
            assert_eq!(d.title, "first");
            assert_eq!(d.body, "one two");
            assert_eq!(d.hash, "h");
            assert_eq!(d.locations, vec!["tmp\0p.jpg".to_string()]);
        }
        _ => panic!("expected an addition"),
    }
    assert!(finish_observe(&Vec::new(), &"tmp\0p.jpg".to_string(), &"h".to_string()).is_empty());
}

#[test]
fn removal_of_last_location_deletes() {
    let doc = IndexedDoc {
        title: "a.txt".to_string(),
        hash: "h".to_string(),
        locations: vec!["tmp\0a.txt".to_string()],
        body: "b ".to_string(),
    };
    let ops = plan_remove(&Some(doc), &"tmp\0a.txt".to_string());
    assert_eq!(ops.len(), 1);
    assert!(matches!(&ops[0], IndexOp::DeleteByLocation(l) if l == "tmp\0a.txt"));
    assert!(plan_remove(&None, &"tmp\0a.txt".to_string()).is_empty());
}

#[test]
fn duplicate_hits_violate_invariants() {
    assert_eq!(unique_hit(vec![1, 2], 2), Err(InvariantViolation { count: 2 }));
    assert_eq!(unique_hit(vec![7], 1), Ok(Some(7)));
    assert_eq!(unique_hit(Vec::<i32>::new(), 0), Ok(None));
}

#[test]
fn digest_is_blake2b_512_hex() {
    assert_eq!(
        calculate_hash(b""),
        "786a02f742015903c6c6fd852552d272912f4740e15847618a86e217f71f5419d25e1031afee585313896444934eb04b903a685b1448b755d56f701afe9be2ce"
    );
    let f = new_file_to_process("/tmp/t/abc".to_string(), b"abc".to_vec());
    assert_eq!(f.hash, "ba80a53f981c4d0d6a2797b69f12f6e94c212f14685ac4b74b12bb6fdbffa2d17d87c5392aab792dc252d5de4533cc9518d38aa8dbf1925ab92386edd4009923");
    assert_eq!(f.path(), "/tmp/t/abc");
}

#[test]
fn projection_decodes_locations() {
    let doc = StoredDocument {
        titles: vec!["file.txt".to_string()],
        locations: vec!["tmp\0t\0file.txt".to_string(), "home\0u\0f.txt".to_string()],
        bodies: vec!["words".to_string()],
    };
    let r = project(&doc);
    assert_eq!(r.title, "file.txt");
    assert_eq!(r.location, vec!["/tmp/t/file.txt", "/home/u/f.txt"]);
    assert_eq!(r.body, "words");
}
