use sptf_tui::domain::{Album, Artist, Duration, PlaybackState, PlaybackStatus, PlayerSnapshot, Track};
use sptf_tui::state::AppState;
use sptf_tui::widgets::album_art::{center_rect, placeholder_area, placeholder_label};
use sptf_tui::widgets::banner::{banner_view, describe_default};
use sptf_tui::widgets::big_title::{
    glyph, is_renderable, quadrant, rendered_width, supports_all, BigTitle, CellPaint, CellSymbol,
    Rect,
};
use sptf_tui::widgets::controls::status_line;
use sptf_tui::widgets::now_playing::{album_title, pane_text, track_pane, TrackPane};
use sptf_tui::widgets::tone::Tone;
use sptf_tui::widgets::volume::volume_label;

const QUADRANT_SYMBOLS: [char; 16] =
    [' ', '▘', '▝', '▀', '▖', '▌', '▞', '▛', '▗', '▚', '▐', '▜', '▄', '▙', '▟', '█'];

fn render(text: &str, width: u16) -> Vec<CellPaint> {
    BigTitle::new(text).paint_plan(Rect { x: 0, y: 0, width, height: 4 })
}

fn has_block(plan: &[CellPaint]) -> bool {
    plan.iter().any(|p| matches!(p.symbol, CellSymbol::Char(c) if QUADRANT_SYMBOLS.contains(&c) && c != ' '))
}

fn has_char(plan: &[CellPaint], want: char) -> bool {
    plan.iter().any(|p| p.symbol == CellSymbol::Char(want))
}

#[test]
fn ascii_is_renderable() {
    assert!(is_renderable('A'));
    assert!(is_renderable('z'));
    assert!(is_renderable('0'));
    assert!(is_renderable(' '));
    assert!(is_renderable('?'));
}

#[test]
fn spanish_diacritics_are_renderable() {
    for c in ['ñ', 'á', 'é', 'í', 'ó', 'ú', 'ü', 'Ñ', 'Á', '¡', '¿'] {
        assert!(is_renderable(c), "expected {c:?} to be renderable");
    }
}

#[test]
fn hiragana_is_renderable() {
    for c in ['あ', 'り', 'が', 'と', 'う'] {
        assert!(is_renderable(c), "expected {c:?} to be renderable");
    }
}

#[test]
fn kanji_and_katakana_are_not_renderable() {
    for c in ['日', '本', '君', '名', 'ア', 'イ', 'ウ', 'エ', 'オ'] {
        assert!(!is_renderable(c), "{c:?} unexpectedly has a glyph");
    }
}

#[test]
fn supports_all_strings() {
    assert!(supports_all(""));
    assert!(supports_all("Hello"));
    assert!(supports_all("Hola Niño"));
    assert!(supports_all("ありがとう"));
    assert!(!supports_all("君の名は"));
    assert!(!supports_all("Track 君"));
}

#[test]
fn rendered_width_counts_chars_not_bytes() {
    assert_eq!(rendered_width(""), 0);
    assert_eq!(rendered_width("Hi"), 8);
    assert_eq!(rendered_width("Niño"), 16);
    assert_eq!(rendered_width("ありがとう"), 20);
    assert_eq!(rendered_width("君の名は"), 16);
}

#[test]
fn ascii_uses_block_chars() {
    let dump = render("A", 40);
    assert!(has_block(&dump), "ASCII should render as block glyphs; got: {dump:?}");
}

#[test]
fn unsupported_chars_appear_as_themselves_inline() {
    let dump = render("君", 40);
    assert!(has_char(&dump, '君'), "kanji should appear as itself; got: {dump:?}");
    assert!(!has_block(&dump), "no block glyph expected for pure-kanji input: {dump:?}");
}

#[test]
fn mixed_script_title_renders_both_paths() {
    let dump = render("あ君A", 40);
    assert!(has_char(&dump, '君'), "kanji should be present: {dump:?}");
    assert!(has_block(&dump), "block glyphs should be present for あ and A: {dump:?}");
}

#[test]
fn katakana_renders_via_fallback() {
    let dump = render("ア", 40);
    assert!(has_char(&dump, 'ア'), "katakana should appear via fallback: {dump:?}");
}

#[test]
fn render_is_noop_for_too_small_area() {
    let plan = BigTitle::new("A君").paint_plan(Rect { x: 0, y: 0, width: 2, height: 2 });
    assert!(plan.is_empty());
}

#[test]
fn glyph_sets_and_quadrants() {
    assert_eq!(glyph(' '), Some([0u8; 8]));
    assert!(glyph('\u{b3}').is_none());
    assert!(glyph('\u{b2}').is_some());
    assert!(glyph('\u{3040}').is_some());
    assert!(glyph('\u{30a0}').is_none());
    assert_eq!(quadrant(0, 0, 0, 0), ' ');
    assert_eq!(quadrant(1, 0, 0, 0), '▘');
    assert_eq!(quadrant(0, 2, 0, 0), '▝');
    assert_eq!(quadrant(0, 0, 4, 0), '▖');
    assert_eq!(quadrant(0, 0, 0, 8), '▗');
    assert_eq!(quadrant(1, 1, 1, 1), '█');
    assert_eq!(quadrant(9, 0, 0, 7), '▚');
}

#[test]
fn paint_plan_fills_whole_slots_left_to_right() {
    let plan = render("Hi", 40);
    assert_eq!(plan.len(), 32);
    for (k, p) in plan.iter().enumerate() {
        let slot = (k / 16) as u16;
        let within = (k % 16) as u16;
        assert_eq!(p.x, slot * 4 + within % 4);
        assert_eq!(p.y, within / 4);
    }
}

#[test]
fn paint_plan_clips_at_the_right_edge() {
    let plan = render("ABC", 6);
    // One whole slot, then two columns of the second, and no third slot.
    assert_eq!(plan.len(), 16 + 8);
    assert!(plan.iter().all(|p| p.x < 6 && p.y < 4));
}

#[test]
fn fallback_char_is_centred_on_second_row() {
    let plan = render("君", 40);
    // Sixteen blanks, then the character at column 1, row 1, then the
    // hidden second half of the wide character.
    assert_eq!(plan.len(), 18);
    assert!(plan[..16].iter().all(|p| p.symbol == CellSymbol::Char(' ')));
    assert_eq!(plan[16], CellPaint { x: 1, y: 1, symbol: CellSymbol::Char('君') });
    assert_eq!(plan[17], CellPaint { x: 2, y: 1, symbol: CellSymbol::Empty });
    let narrow = render("\u{2603}", 40);
    assert_eq!(narrow[16], CellPaint { x: 1, y: 1, symbol: CellSymbol::Char('\u{2603}') });
}

#[test]
fn centered_title_starts_in_the_middle() {
    let plan = BigTitle::new("A").centered().paint_plan(Rect { x: 10, y: 3, width: 20, height: 6 });
    assert_eq!(plan.len(), 16);
    assert_eq!(plan[0].x, 18);
    assert_eq!(plan[0].y, 3);
    assert!(plan.iter().all(|p| p.y < 7));
    assert!(BigTitle::new("").paint_plan(Rect { x: 0, y: 0, width: 20, height: 4 }).is_empty());
}

fn connected(title: &str, album: Option<&str>) -> PlayerSnapshot {
    PlayerSnapshot {
        bus_name: Some("org.mpris.MediaPlayer2.spotify".into()),
        identity: Some("Spotify".into()),
        track: Some(Track {
            title: title.into(),
            artists: vec![Artist { name: "ArtistA".into() }, Artist { name: "ArtistB".into() }],
            album: album.map(|a| Album { title: a.into(), artist: String::new(), art_url: None }),
            length: Some(Duration::from_secs(200)),
            ..Track::default()
        }),
        playback: PlaybackState {
            status: PlaybackStatus::Playing,
            position: Duration::from_secs(50),
            volume: 75,
        },
    }
}

#[test]
fn banner_describes_connection_when_no_message() {
    let state = AppState::default();
    assert!(describe_default(&state).contains("no player connected"));
    let v = banner_view(&state);
    assert_eq!(v.tone, Tone::Muted);
    assert_eq!(v.text, "no player connected \u{2014} start Spotify (or any MPRIS player)");
    let mut state = AppState::default();
    state.set_player(connected("T", None));
    assert_eq!(describe_default(&state), "connected to Spotify");
    state.player.identity = None;
    assert_eq!(describe_default(&state), "connected to MPRIS player");
    state.set_banner("player error: boom".to_string());
    let v = banner_view(&state);
    assert_eq!(v.tone, Tone::Warn);
    assert_eq!(v.text, "player error: boom");
}

#[test]
fn status_line_shows_state_identity_and_time() {
    let line = status_line(&connected("Title-Here", Some("Album-Here")));
    assert_eq!(line.icon, "\u{25b6}");
    assert_eq!(line.label, "Playing");
    assert_eq!(line.tone, Tone::Accent);
    assert_eq!(line.identity, "Spotify");
    assert_eq!(line.time, "0:50 / 3:20");
    let mut paused = PlayerSnapshot::default();
    paused.playback.status = PlaybackStatus::Paused;
    let line = status_line(&paused);
    assert_eq!(line.label, "Paused");
    assert_eq!(line.tone, Tone::Warn);
    assert_eq!(line.identity, "no player");
    assert_eq!(line.time, "0:00 / 0:00");
    let stopped = status_line(&PlayerSnapshot::default());
    assert_eq!((stopped.icon.as_str(), stopped.label.as_str()), ("\u{23f9}", "Stopped"));
}

#[test]
fn volume_label_is_right_aligned_percent() {
    assert_eq!(volume_label(75), " 75%");
    assert_eq!(volume_label(5), "  5%");
    assert_eq!(volume_label(100), "100%");
    assert_eq!(volume_label(0), "  0%");
}

#[test]
fn track_pane_chooses_layout() {
    let s = connected("Title-Here", Some("Album-Here"));
    // Ten characters need 42 columns and eight rows for the large title.
    assert_eq!(track_pane(&s, 42, 8), TrackPane::Big { top_pad: 0 });
    assert_eq!(track_pane(&s, 98, 20), TrackPane::Big { top_pad: 6 });
    assert_eq!(track_pane(&s, 41, 20), TrackPane::Compact { top_pad: 8, lines: 3 });
    assert_eq!(track_pane(&s, 98, 7), TrackPane::Compact { top_pad: 2, lines: 3 });
    let no_album = connected("Title-Here", None);
    assert_eq!(track_pane(&no_album, 10, 5), TrackPane::Compact { top_pad: 1, lines: 2 });
    let empty_album = connected("Title-Here", Some(""));
    assert_eq!(track_pane(&empty_album, 10, 1), TrackPane::Compact { top_pad: 0, lines: 2 });
    assert_eq!(track_pane(&PlayerSnapshot::default(), 98, 20), TrackPane::Empty { top_pad: 8 });
    assert_eq!(track_pane(&connected("", None), 98, 2), TrackPane::Empty { top_pad: 0 });
    assert_eq!(album_title(s.track.as_ref().unwrap()), "Album-Here");
    assert_eq!(album_title(&Track::default()), "");
}

#[test]
fn cover_placement() {
    let area = Rect { x: 2, y: 1, width: 20, height: 10 };
    assert_eq!(center_rect(10, 4, area), Rect { x: 7, y: 4, width: 10, height: 4 });
    assert_eq!(center_rect(30, 40, area), area);
    assert_eq!(placeholder_area(area), Some(Rect { x: 2, y: 4, width: 20, height: 4 }));
    assert_eq!(placeholder_area(Rect { x: 0, y: 0, width: 5, height: 2 }), Some(Rect {
        x: 0,
        y: 0,
        width: 5,
        height: 2,
    }));
    assert_eq!(placeholder_area(Rect { x: 0, y: 0, width: 0, height: 9 }), None);
    assert_eq!(placeholder_label(true), "loading\u{2026}");
    assert_eq!(placeholder_label(false), "no cover");
}

#[test]
fn track_text_appears_in_every_layout() {
    let s = connected("Title-Here", Some("Album-Here"));
    // The 98 by 15 pane of a 100 by 30 terminal takes the large layout.
    assert_eq!(track_pane(&s, 98, 15), TrackPane::Big { top_pad: 4 });
    let big = pane_text(&s, 98, 15);
    assert_eq!(big, vec!["Title-Here".to_string(), "ArtistA, ArtistB".to_string(), "Album-Here".to_string()]);
    assert_eq!(pane_text(&s, 20, 15), big);
    let no_album = pane_text(&connected("T", None), 98, 15);
    assert_eq!(no_album, vec!["T".to_string(), "ArtistA, ArtistB".to_string()]);
    let empty = pane_text(&PlayerSnapshot::default(), 98, 15);
    assert_eq!(empty, vec!["No track playing.".to_string(), String::new(), "Start something in your player.".to_string()]);
}

#[test]
fn paint_plan_saturates_at_the_grid_edge() {
    // The area reaches past column 65535: the right edge saturates there,
    // so the second slot keeps one column and the third is not drawn.
    let plan = BigTitle::new("AAA").paint_plan(Rect { x: 65530, y: 0, width: 100, height: 4 });
    assert_eq!(plan.len(), 16 + 4);
    assert!(plan.iter().all(|p| p.x >= 65530));
    assert_eq!(plan.iter().filter(|p| p.x == 65534).count(), 4);
    // The band's bottom saturates too: an area on the last row gets one row.
    let low = BigTitle::new("A").paint_plan(Rect { x: 0, y: 65534, width: 8, height: 4 });
    assert_eq!(low.len(), 4);
    assert!(low.iter().all(|p| p.y == 65534));
}

#[test]
fn cover_placement_near_the_grid_edge() {
    let area = Rect { x: 65000, y: 65000, width: 1000, height: 1000 };
    assert_eq!(center_rect(10, 4, area), Rect { x: 65495, y: 65498, width: 10, height: 4 });
    assert_eq!(placeholder_area(area), Some(Rect { x: 65000, y: 65498, width: 1000, height: 4 }));
}
