use nix_snow::document::{lines, text_of};
use nix_snow::error::Failure;
use nix_snow::identifier::ResolvedIdentifier;
use nix_snow::modes::add::add_package;
use nix_snow::modes::remove::remove_package;
use nix_snow::region::{find_region, Markers};

struct Dice(u64);

impl Dice {
    fn roll(&mut self, sides: usize) -> usize {
        self.0 = self.0.wrapping_mul(6364136223846793005).wrapping_add(1442695040888963407);
        ((self.0 >> 33) as usize) % sides
    }
}

const PIECES: [&str; 14] =
    ["", " ", "  ", "\t", "a", "b", "B", "fd", "é", "#", "~", "BEGIN", "END", "\u{a0}"];

fn some_line(dice: &mut Dice) -> String {
    let mut line = String::new();
    for _ in 0..dice.roll(4) {
        line.push_str(PIECES[dice.roll(PIECES.len())]);
    }
    line
}

fn some_doc(dice: &mut Dice) -> Vec<String> {
    (0..dice.roll(7)).map(|_| some_line(dice)).collect()
}

fn region_with_std(doc: &[String], markers: &Markers) -> Option<(usize, usize)> {
    let begin = doc.iter().position(|line| line.trim().contains(markers.begin.as_str()))?;
    let end = doc.iter().position(|line| line.trim().contains(markers.end.as_str()))?;
    if begin < end {
        Some((begin, end))
    } else {
        None
    }
}

fn add_with_std(doc: &[String], id: &str, markers: &Markers) -> Result<Vec<String>, Failure> {
    let (begin, end) = region_with_std(doc, markers).ok_or(Failure::MarkersMissing)?;
    if doc[begin + 1..end].iter().any(|line| line.trim() == id.trim()) {
        return Err(Failure::AlreadyPresent);
    }
    let indent: String = doc[begin].chars().take_while(|c| c.is_whitespace()).collect();
    let mut edited = doc.to_vec();
    edited.insert(begin + 1, indent + id);
    edited[begin..=end + 1].sort();
    Ok(edited)
}

fn remove_with_std(doc: &[String], id: &str, markers: &Markers) -> Result<Vec<String>, Failure> {
    let (begin, end) = region_with_std(doc, markers).ok_or(Failure::MarkersMissing)?;
    let edited: Vec<String> = doc
        .iter()
        .enumerate()
        .filter(|(i, line)| !(*i >= begin && *i <= end && line.trim() == id.trim()))
        .map(|(_, line)| line.clone())
        .collect();
    if edited == doc {
        Err(Failure::NotPresent)
    } else {
        Ok(edited)
    }
}

#[test]
fn edits_agree_with_the_standard_library_on_many_documents() {
    let markers = Markers { begin: "BEGIN".to_string(), end: "END".to_string() };
    let mut dice = Dice(2024);
    let mut regions = 0;
    let mut added = 0;
    let mut removed = 0;
    for _ in 0..20000 {
        let doc = some_doc(&mut dice);
        let name = some_line(&mut dice);
        let expected_region = region_with_std(&doc, &markers);
        let found = find_region(&doc, &markers).map(|region| (region.begin, region.end));
        assert_eq!(found, expected_region, "{:?}", doc);
        regions += expected_region.is_some() as usize;
        let id = match ResolvedIdentifier::new(&name) {
            Some(id) => id,
            None => {
                assert_eq!(name.trim(), "");
                continue;
            }
        };
        let grown = add_package(&doc, &id, &markers);
        assert_eq!(grown, add_with_std(&doc, &name, &markers), "{:?} + {:?}", doc, name);
        added += grown.is_ok() as usize;
        let fewer = remove_package(&doc, &id, &markers);
        assert_eq!(fewer, remove_with_std(&doc, &name, &markers), "{:?} - {:?}", doc, name);
        removed += fewer.is_ok() as usize;
    }
    assert!(regions > 500 && added > 200 && removed > 20, "{regions} {added} {removed}");
}

#[test]
fn documents_survive_splitting_and_joining() {
    let mut dice = Dice(7);
    for _ in 0..2000 {
        let mut doc = some_doc(&mut dice);
        doc.push(some_line(&mut dice));
        let text = doc.join("\n");
        assert_eq!(text_of(&doc), text);
        assert_eq!(lines(&text), doc);
    }
}
