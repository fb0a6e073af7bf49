use synth_one::notes::Notebook;

fn pitches(book: &Notebook) -> Vec<u8> {
    book.get_notes().iter().map(|n| n.number).collect()
}

#[test]
fn note_on_stores_a_fresh_note() {
    let mut book = Notebook::new();
    book.note_on(60, 100);
    let notes = book.get_notes();
    assert_eq!(notes.len(), 1);
    assert_eq!(notes[0].number, 60);
    assert_eq!(notes[0].velocity, 100);
    assert_eq!(notes[0].time, 0);
    assert!(notes[0].on);
}

#[test]
fn note_off_records_the_release_time() {
    let mut book = Notebook::new();
    book.note_on(60, 100);
    book.update_note_times(500);
    book.note_off(60);
    let notes = book.get_notes();
    assert_eq!(notes.len(), 1);
    assert!(!notes[0].on);
    assert_eq!(notes[0].off_time, 500);
    assert_eq!(notes[0].time, 500);
}

#[test]
fn stray_note_off_is_ignored() {
    let mut book = Notebook::new();
    book.note_on(60, 100);
    book.note_off(61);
    let notes = book.get_notes();
    assert_eq!(notes.len(), 1);
    assert!(notes[0].on);
}

#[test]
fn retriggering_a_pitch_restarts_its_note() {
    let mut book = Notebook::new();
    book.note_on(60, 100);
    book.update_note_times(500);
    book.note_on(60, 50);
    let notes = book.get_notes();
    assert_eq!(notes.len(), 1);
    assert_eq!(notes[0].velocity, 50);
    assert_eq!(notes[0].time, 0);
    assert!(notes[0].on);
}

#[test]
fn advance_time_moves_every_clock() {
    let mut book = Notebook::new();
    book.note_on(60, 100);
    book.note_on(64, 90);
    book.update_note_times(128);
    book.update_note_times(128);
    for note in book.get_notes() {
        assert_eq!(note.time, 256);
    }
}

#[test]
fn purge_removes_a_note_exactly_when_its_off_time_reaches_the_threshold() {
    let mut book = Notebook::new();
    book.note_on(60, 100);
    book.note_off(60);
    let threshold = 1000u64;
    // Off at time 0; advance in steps of 300 ticks.  At accumulated
    // off-times 300, 600 and 900 the note survives the purge.
    for _ in 0..3 {
        book.update_note_times(300);
        book.purge_old_notes(threshold);
        assert_eq!(pitches(&book), vec![60]);
    }
    // At 1200 the time since release is at least the threshold: removed.
    book.update_note_times(300);
    book.purge_old_notes(threshold);
    assert!(pitches(&book).is_empty());
}

#[test]
fn purge_never_removes_sounding_notes() {
    let mut book = Notebook::new();
    book.note_on(60, 100);
    book.update_note_times(1_000_000);
    book.purge_old_notes(10);
    assert_eq!(pitches(&book), vec![60]);
}
