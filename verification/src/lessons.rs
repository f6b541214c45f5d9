//! The built-in lessons: nine drills for each layout, then six shared ones.
use vstd::prelude::*;

use crate::settings::KeyboardLayout;

verus! {

/// A lesson of the menu.
#[derive(Clone, Copy, Debug)]
pub struct Lesson {
    pub id: &'static str,
    pub title: &'static str,
    /// The keys the lesson drills, as shown in the menu.
    pub keys: &'static str,
    pub text: &'static str,
}

pub const INDEX_KEYS_ID: &'static str = "index_keys";

pub const INDEX_KEYS_TITLE: &'static str = "Index Keys";

pub const MIDDLE_KEYS_ID: &'static str = "middle_keys";

pub const MIDDLE_KEYS_TITLE: &'static str = "Middle Keys";

pub const RING_PINKY_ID: &'static str = "ring_pinky";

pub const RING_PINKY_TITLE: &'static str = "Ring & Pinky";

pub const HOME_ROW_ID: &'static str = "home_row";

pub const HOME_ROW_TITLE: &'static str = "Home Row";

pub const HOME_REACH_ID: &'static str = "home_reach";

pub const HOME_REACH_TITLE: &'static str = "Home Reach";

pub const TOP_INTRO_ID: &'static str = "top_intro";

pub const TOP_INTRO_TITLE: &'static str = "Top Intro";

pub const TOP_ROW_ID: &'static str = "top_row";

pub const TOP_ROW_TITLE: &'static str = "Top Row";

pub const BOTTOM_ROW_ID: &'static str = "bottom_row";

pub const BOTTOM_ROW_TITLE: &'static str = "Bottom Row";

pub const ALL_KEYS_ID: &'static str = "all_keys";

pub const ALL_KEYS_TITLE: &'static str = "All Letters";

pub const CAPITALS_ID: &'static str = "capitals";

pub const CAPITALS_TITLE: &'static str = "Capitals & Shift";

pub const NUMBERS_ID: &'static str = "numbers";

pub const NUMBERS_TITLE: &'static str = "0-9 Numbers";

pub const PUNCTUATION_ID: &'static str = "punctuation";

pub const PUNCTUATION_TITLE: &'static str = "Punctuation & Symbols";

pub const COMMON_WORDS_ID: &'static str = "common_words";

pub const COMMON_WORDS_TITLE: &'static str = "Common Words";

pub const PARAGRAPHS_ID: &'static str = "paragraphs";

pub const PARAGRAPHS_TITLE: &'static str = "Full Paragraphs";

pub const CODE_ID: &'static str = "code";

pub const CODE_TITLE: &'static str = "Code (Rust)";

pub const QWERTY_INDEX_KEYS_TEXT: &'static str = "fff jjj fff jjj fj fj jf jf\nff jj fj jf fjf jfj\njf fj ffj jjf fjj jff\nfj jf fjfj jfjf ff jj\n";

pub const QWERTY_MIDDLE_KEYS_TEXT: &'static str = "ddd kkk dd kk dk kd\nfd jk df kj fdk jkd\ndfd kjk fdf jkj\nkid did fed jdk dkf\n";

pub const QWERTY_RING_PINKY_TEXT: &'static str = "sss lll ;;; sl ls s; ;s\nsad lad; fall; lass\nask dad; add salad;\nflask; skills; dollss\n";

pub const QWERTY_HOME_ROW_TEXT: &'static str = "asdf jkl; asdf jkl;\na sad lass; a fall ask\ndad adds salsa; all fall\nask a lad; flask falls\n";

pub const QWERTY_HOME_REACH_TEXT: &'static str = "fgf jhj fgf jhj gh hg\nhad gas; glad hall\nflag dash; half glass\nshall had; gash jag\n";

pub const QWERTY_TOP_INTRO_TEXT: &'static str = "ded kik frf juj\nred fire; rude deer\nidea ride; rise sure\nfree juice; dire skies\n";

pub const QWERTY_TOP_ROW_TEXT: &'static str = "qwerty uiop qwerty uiop\ntype your quiet poetry\nwe write to pour out words\npretty tower quip weep\n";

pub const QWERTY_BOTTOM_ROW_TEXT: &'static str = "zxcv bnm, zxcv bnm.\nzinc box, calm moon.\nvexing bumps, mixed cubes.\na brave zebra, a calm comb.\n";

pub const QWERTY_ALL_KEYS_TEXT: &'static str = "the quick brown fox jumps over the lazy dog\npack my box with five dozen liquor jugs\nhow vexingly quick daft zebras jump\nsphinx of black quartz, judge my vow\n";

pub const DVORAK_INDEX_KEYS_TEXT: &'static str = "uuu hhh uuu hhh uh uh hu hu\nuu hh uh hu uhu huh\nhu uh uuh hhu uhh huu\nuh hu uhuh huhu uu hh\n";

pub const DVORAK_MIDDLE_KEYS_TEXT: &'static str = "eee ttt ee tt et te\nthe tee hue teeth\ntut het thee tete\nhue the teeth hut\n";

pub const DVORAK_RING_PINKY_TEXT: &'static str = "ooo nnn sss aaa\non no so as an\nson nose ones snoot\na soon noon; a nosh\n";

pub const DVORAK_HOME_ROW_TEXT: &'static str = "aoeu idhtns aoeu idhtns\nthe son hides a nut\na sad hen eats oats\nthose neat doodads\n";

pub const DVORAK_HOME_REACH_TEXT: &'static str = "uiu hdh uiu hdh id di\ntide hide side dine\nsaid dish; nudes dine\nideas hid at dusk\n";

pub const DVORAK_TOP_INTRO_TEXT: &'static str = "ppp ccc rrr lll pc rl\npart clip reel pole\nplace crop; larch cup\nparcel; circle; price\n";

pub const DVORAK_TOP_ROW_TEXT: &'static str = "',. pyf gcrl ',. pyf gcrl\nfly, gray, pry, clay.\n'cry,' yelled the pig.\ngyp fry; glory, pray.\n";

pub const DVORAK_BOTTOM_ROW_TEXT: &'static str = ";qjk xbmwvz ;qjk xbmwvz\njazz box; quick vim\nmix, wax, joke; vex\nbrave jumbo wax; quiz\n";

pub const DVORAK_ALL_KEYS_TEXT: &'static str = "the quick brown fox jumps over the lazy dog\npack my box with five dozen liquor jugs\nhow vexingly quick daft zebras jump\nsphinx of black quartz, judge my vow\n";

pub const COLEMAK_INDEX_KEYS_TEXT: &'static str = "ttt nnn ttt nnn tn tn nt nt\ntt nn tn nt tnt ntn\nnt tn ttn nnt tnn ntt\ntn nt tntn ntnt tt nn\n";

pub const COLEMAK_MIDDLE_KEYS_TEXT: &'static str = "sss eee ss ee se es\nsee set sees tees\nsent nest ness tens\ntense seen steen\n";

pub const COLEMAK_RING_PINKY_TEXT: &'static str = "rrr iii ooo aaa\nrat air oar rio\nratio rain iron roar\na riot; an oar; a roar\n";

pub const COLEMAK_HOME_ROW_TEXT: &'static str = "arst dhneio arst dhneio\nthe rain hides a nest\na dire heat roars on\nindoor hearts; shined\n";

pub const COLEMAK_HOME_REACH_TEXT: &'static str = "tdt nhn tdt nhn dh hd\nhand dish hide shed\nhead dines; hoards\nhe dashed into sheds\n";

pub const COLEMAK_TOP_INTRO_TEXT: &'static str = "fff ppp lll uuu fp lu\nfuel pull flip plus\nfull loop; puff pulp\nplenty of fuel; flutes\n";

pub const COLEMAK_TOP_ROW_TEXT: &'static str = "qwfpg jluy; qwfpg jluy;\nquiet gulp; jolly pug\nwily frog; pulp jug\nplay, grow, fly; jump\n";

pub const COLEMAK_BOTTOM_ROW_TEXT: &'static str = "zxcvb km,. zxcvb km,.\nmix box, calm zinc.\nvex combs, back kvm.\na mock zebra, a cave.\n";

pub const COLEMAK_ALL_KEYS_TEXT: &'static str = "the quick brown fox jumps over the lazy dog\npack my box with five dozen liquor jugs\nhow vexingly quick daft zebras jump\nsphinx of black quartz, judge my vow\n";

pub const CAPITALS_TEXT: &'static str = "Alice and Bob met Carol in Denver.\nThe River Thames flows through London.\nMonday, Tuesday and Friday are busy.\nNASA and ESA Launch New Missions.\n";

pub const NUMBERS_TEXT: &'static str = "There are 365 days in a year.\nCall 555 0199 before 8 or after 17.\nThe train leaves at 10 and arrives at 42.\nOrder 12 boxes, 7 crates and 90 bags.\n";

pub const PUNCTUATION_TEXT: &'static str = "Wait! Is it done? Yes, it is.\nPrice: $42 (incl. tax) & 15% off.\nUse \"quotes\", 'apostrophes' and [brackets].\na+b=c; x*y/z; #tag @user ~home_dir\n";

pub const COMMON_WORDS_TEXT: &'static str = "the of and to in is you that it he\nwas for on are as with his they at be\nthis have from or one had by word but not\nwhat all were we when your can said there use\n";

pub const PARAGRAPHS_TEXT: &'static str = "Typing well is a skill built slowly, one key at a time.\nKeep your fingers on the home row and your eyes on the screen.\nAccuracy comes first; speed follows when the motions become habit.\nTake short breaks, sit up straight, and let your hands stay relaxed.\n";

pub const CODE_TEXT: &'static str = "fn main() {\n    let words: Vec<&str> = vec![\"alpha\", \"beta\"];\n    for (i, w) in words.iter().enumerate() {\n        println!(\"{i}: {w}\");\n    }\n}\n";

/// A lesson.
pub open spec fn lesson(id: &'static str, title: &'static str, keys: &'static str, text: &'static str) -> Lesson {
    Lesson { id, title, keys, text }
}

fn make_lesson(id: &'static str, title: &'static str, keys: &'static str, text: &'static str) -> (l: Lesson)
    ensures
        l == lesson(id, title, keys, text),
{
    Lesson { id, title, keys, text }
}

/// The nine lessons drawn up for a layout.
pub open spec fn layout_lessons(layout: KeyboardLayout) -> Seq<Lesson> {
    match layout {
        KeyboardLayout::Qwerty => seq![
            lesson(INDEX_KEYS_ID, INDEX_KEYS_TITLE, "f j", QWERTY_INDEX_KEYS_TEXT),
            lesson(MIDDLE_KEYS_ID, MIDDLE_KEYS_TITLE, "d k (+ f j)", QWERTY_MIDDLE_KEYS_TEXT),
            lesson(RING_PINKY_ID, RING_PINKY_TITLE, "s l ; (+ f j d k)", QWERTY_RING_PINKY_TEXT),
            lesson(HOME_ROW_ID, HOME_ROW_TITLE, "a s d f j k l ;", QWERTY_HOME_ROW_TEXT),
            lesson(HOME_REACH_ID, HOME_REACH_TITLE, "g h", QWERTY_HOME_REACH_TEXT),
            lesson(TOP_INTRO_ID, TOP_INTRO_TITLE, "e i r u", QWERTY_TOP_INTRO_TEXT),
            lesson(TOP_ROW_ID, TOP_ROW_TITLE, "q w e r t y u i o p", QWERTY_TOP_ROW_TEXT),
            lesson(BOTTOM_ROW_ID, BOTTOM_ROW_TITLE, "z x c v b n m , .", QWERTY_BOTTOM_ROW_TEXT),
            lesson(ALL_KEYS_ID, ALL_KEYS_TITLE, "", QWERTY_ALL_KEYS_TEXT),
        ],
        KeyboardLayout::Dvorak => seq![
            lesson(INDEX_KEYS_ID, INDEX_KEYS_TITLE, "u h", DVORAK_INDEX_KEYS_TEXT),
            lesson(MIDDLE_KEYS_ID, MIDDLE_KEYS_TITLE, "e t (+ u h)", DVORAK_MIDDLE_KEYS_TEXT),
            lesson(RING_PINKY_ID, RING_PINKY_TITLE, "o n s (+ a)", DVORAK_RING_PINKY_TEXT),
            lesson(HOME_ROW_ID, HOME_ROW_TITLE, "a o e u i d h t n s", DVORAK_HOME_ROW_TEXT),
            lesson(HOME_REACH_ID, HOME_REACH_TITLE, "i d", DVORAK_HOME_REACH_TEXT),
            lesson(TOP_INTRO_ID, TOP_INTRO_TITLE, "p c r l", DVORAK_TOP_INTRO_TEXT),
            lesson(TOP_ROW_ID, TOP_ROW_TITLE, "' , . p y f g c r l", DVORAK_TOP_ROW_TEXT),
            lesson(BOTTOM_ROW_ID, BOTTOM_ROW_TITLE, "; q j k x b m w v z", DVORAK_BOTTOM_ROW_TEXT),
            lesson(ALL_KEYS_ID, ALL_KEYS_TITLE, "", DVORAK_ALL_KEYS_TEXT),
        ],
        KeyboardLayout::Colemak => seq![
            lesson(INDEX_KEYS_ID, INDEX_KEYS_TITLE, "t n", COLEMAK_INDEX_KEYS_TEXT),
            lesson(MIDDLE_KEYS_ID, MIDDLE_KEYS_TITLE, "s e (+ t n)", COLEMAK_MIDDLE_KEYS_TEXT),
            lesson(RING_PINKY_ID, RING_PINKY_TITLE, "r i o (+ a)", COLEMAK_RING_PINKY_TEXT),
            lesson(HOME_ROW_ID, HOME_ROW_TITLE, "a r s t d h n e i o", COLEMAK_HOME_ROW_TEXT),
            lesson(HOME_REACH_ID, HOME_REACH_TITLE, "d h", COLEMAK_HOME_REACH_TEXT),
            lesson(TOP_INTRO_ID, TOP_INTRO_TITLE, "f p l u", COLEMAK_TOP_INTRO_TEXT),
            lesson(TOP_ROW_ID, TOP_ROW_TITLE, "q w f p g j l u y ;", COLEMAK_TOP_ROW_TEXT),
            lesson(BOTTOM_ROW_ID, BOTTOM_ROW_TITLE, "z x c v b k m , .", COLEMAK_BOTTOM_ROW_TEXT),
            lesson(ALL_KEYS_ID, ALL_KEYS_TITLE, "", COLEMAK_ALL_KEYS_TEXT),
        ],
    }
}

/// The six lessons every layout shares.
pub open spec fn shared_lessons() -> Seq<Lesson> {
    seq![
        lesson(CAPITALS_ID, CAPITALS_TITLE, "", CAPITALS_TEXT),
        lesson(NUMBERS_ID, NUMBERS_TITLE, "", NUMBERS_TEXT),
        lesson(PUNCTUATION_ID, PUNCTUATION_TITLE, "", PUNCTUATION_TEXT),
        lesson(COMMON_WORDS_ID, COMMON_WORDS_TITLE, "", COMMON_WORDS_TEXT),
        lesson(PARAGRAPHS_ID, PARAGRAPHS_TITLE, "", PARAGRAPHS_TEXT),
        lesson(CODE_ID, CODE_TITLE, "", CODE_TEXT),
    ]
}

/// The lessons of a layout's menu: its own nine, then the shared six.
pub open spec fn menu_lessons(layout: KeyboardLayout) -> Seq<Lesson> {
    layout_lessons(layout) + shared_lessons()
}

fn build_layout_lessons(layout: KeyboardLayout) -> (v: Vec<Lesson>)
    ensures
        v@ == layout_lessons(layout),
{
    match layout {
        KeyboardLayout::Qwerty => vec![
            make_lesson(INDEX_KEYS_ID, INDEX_KEYS_TITLE, "f j", QWERTY_INDEX_KEYS_TEXT),
            make_lesson(MIDDLE_KEYS_ID, MIDDLE_KEYS_TITLE, "d k (+ f j)", QWERTY_MIDDLE_KEYS_TEXT),
            make_lesson(RING_PINKY_ID, RING_PINKY_TITLE, "s l ; (+ f j d k)", QWERTY_RING_PINKY_TEXT),
            make_lesson(HOME_ROW_ID, HOME_ROW_TITLE, "a s d f j k l ;", QWERTY_HOME_ROW_TEXT),
            make_lesson(HOME_REACH_ID, HOME_REACH_TITLE, "g h", QWERTY_HOME_REACH_TEXT),
            make_lesson(TOP_INTRO_ID, TOP_INTRO_TITLE, "e i r u", QWERTY_TOP_INTRO_TEXT),
            make_lesson(TOP_ROW_ID, TOP_ROW_TITLE, "q w e r t y u i o p", QWERTY_TOP_ROW_TEXT),
            make_lesson(BOTTOM_ROW_ID, BOTTOM_ROW_TITLE, "z x c v b n m , .", QWERTY_BOTTOM_ROW_TEXT),
            make_lesson(ALL_KEYS_ID, ALL_KEYS_TITLE, "", QWERTY_ALL_KEYS_TEXT),
        ],
        KeyboardLayout::Dvorak => vec![
            make_lesson(INDEX_KEYS_ID, INDEX_KEYS_TITLE, "u h", DVORAK_INDEX_KEYS_TEXT),
            make_lesson(MIDDLE_KEYS_ID, MIDDLE_KEYS_TITLE, "e t (+ u h)", DVORAK_MIDDLE_KEYS_TEXT),
            make_lesson(RING_PINKY_ID, RING_PINKY_TITLE, "o n s (+ a)", DVORAK_RING_PINKY_TEXT),
            make_lesson(HOME_ROW_ID, HOME_ROW_TITLE, "a o e u i d h t n s", DVORAK_HOME_ROW_TEXT),
            make_lesson(HOME_REACH_ID, HOME_REACH_TITLE, "i d", DVORAK_HOME_REACH_TEXT),
            make_lesson(TOP_INTRO_ID, TOP_INTRO_TITLE, "p c r l", DVORAK_TOP_INTRO_TEXT),
            make_lesson(TOP_ROW_ID, TOP_ROW_TITLE, "' , . p y f g c r l", DVORAK_TOP_ROW_TEXT),
            make_lesson(BOTTOM_ROW_ID, BOTTOM_ROW_TITLE, "; q j k x b m w v z", DVORAK_BOTTOM_ROW_TEXT),
            make_lesson(ALL_KEYS_ID, ALL_KEYS_TITLE, "", DVORAK_ALL_KEYS_TEXT),
        ],
        KeyboardLayout::Colemak => vec![
            make_lesson(INDEX_KEYS_ID, INDEX_KEYS_TITLE, "t n", COLEMAK_INDEX_KEYS_TEXT),
            make_lesson(MIDDLE_KEYS_ID, MIDDLE_KEYS_TITLE, "s e (+ t n)", COLEMAK_MIDDLE_KEYS_TEXT),
            make_lesson(RING_PINKY_ID, RING_PINKY_TITLE, "r i o (+ a)", COLEMAK_RING_PINKY_TEXT),
            make_lesson(HOME_ROW_ID, HOME_ROW_TITLE, "a r s t d h n e i o", COLEMAK_HOME_ROW_TEXT),
            make_lesson(HOME_REACH_ID, HOME_REACH_TITLE, "d h", COLEMAK_HOME_REACH_TEXT),
            make_lesson(TOP_INTRO_ID, TOP_INTRO_TITLE, "f p l u", COLEMAK_TOP_INTRO_TEXT),
            make_lesson(TOP_ROW_ID, TOP_ROW_TITLE, "q w f p g j l u y ;", COLEMAK_TOP_ROW_TEXT),
            make_lesson(BOTTOM_ROW_ID, BOTTOM_ROW_TITLE, "z x c v b k m , .", COLEMAK_BOTTOM_ROW_TEXT),
            make_lesson(ALL_KEYS_ID, ALL_KEYS_TITLE, "", COLEMAK_ALL_KEYS_TEXT),
        ],
    }
}

fn build_shared_lessons() -> (v: Vec<Lesson>)
    ensures
        v@ == shared_lessons(),
{
    vec![
        make_lesson(CAPITALS_ID, CAPITALS_TITLE, "", CAPITALS_TEXT),
        make_lesson(NUMBERS_ID, NUMBERS_TITLE, "", NUMBERS_TEXT),
        make_lesson(PUNCTUATION_ID, PUNCTUATION_TITLE, "", PUNCTUATION_TEXT),
        make_lesson(COMMON_WORDS_ID, COMMON_WORDS_TITLE, "", COMMON_WORDS_TEXT),
        make_lesson(PARAGRAPHS_ID, PARAGRAPHS_TITLE, "", PARAGRAPHS_TEXT),
        make_lesson(CODE_ID, CODE_TITLE, "", CODE_TEXT),
    ]
}

/// The lessons of a layout's menu (see [`menu_lessons`]).
pub fn lessons_for_layout(layout: KeyboardLayout) -> (v: Vec<Lesson>)
    ensures
        v@ == menu_lessons(layout),
{
    let mut v = build_layout_lessons(layout);
    let mut shared = build_shared_lessons();
    v.append(&mut shared);
    v
}

/// How many lessons a menu has.
pub fn lesson_count() -> (n: usize)
    ensures
        n == 15,
        n == layout_lessons(KeyboardLayout::Qwerty).len() + shared_lessons().len(),
{
    9 + 6
}

/// The first menu position, from `i` on, of a lesson titled `title` (every
/// layout's menu has the same titles at the same places).
pub open spec fn title_position_from(title: Seq<char>, i: int) -> Option<int>
    decreases 15 - i,
{
    if i < 0 || i >= 15 {
        None
    } else if menu_lessons(KeyboardLayout::Qwerty)[i].title@ == title {
        Some(i)
    } else {
        title_position_from(title, i + 1)
    }
}

/// The menu position of the lesson titled `title`, if a lesson is.
pub open spec fn title_position(title: Seq<char>) -> Option<int> {
    title_position_from(title, 0)
}

/// The menu position of the lesson titled `title` (see [`title_position`]).
pub fn position_of_title(title: &String) -> (r: Option<usize>)
    ensures
        r matches Some(i) ==> title_position(title@) == Some(i as int),
        r is None ==> title_position(title@) is None,
{
    let lessons = lessons_for_layout(KeyboardLayout::Qwerty);
    let mut i: usize = 0;
    while i < lessons.len()
        invariant
            lessons@ == menu_lessons(KeyboardLayout::Qwerty),
            i <= 15,
            title_position(title@) == title_position_from(title@, i as int),
        decreases 15 - i,
    {
        let t: String = lessons[i].title.to_owned();
        if t == *title {
            return Some(i);
        }
        i += 1;
    }
    None
}

/// The built-in lesson of the last session that was one, by menu position,
/// and whether that session was completed; sessions are (lesson, completed),
/// oldest first.
pub open spec fn last_lesson_session(sessions: Seq<(Seq<char>, bool)>) -> Option<(int, bool)>
    decreases sessions.len(),
{
    if sessions.len() == 0 {
        None
    } else {
        match title_position(sessions.last().0) {
            Some(i) => Some((i, sessions.last().1)),
            None => last_lesson_session(sessions.drop_last()),
        }
    }
}

/// Where the menu cursor starts: on the last built-in lesson when it was
/// left unfinished, on the lesson after it when it was completed (on the
/// last lesson again when there is none after it), and on the first lesson
/// when no session was of a built-in lesson.
pub open spec fn resume_spec(sessions: Seq<(Seq<char>, bool)>) -> int {
    match last_lesson_session(sessions) {
        None => 0,
        Some((i, done)) => if done && i + 1 < 15 {
            i + 1
        } else {
            i
        },
    }
}

/// The view of a list of sessions as (lesson, completed).
pub open spec fn sessions_view(sessions: Seq<(String, bool)>) -> Seq<(Seq<char>, bool)> {
    sessions.map_values(|s: (String, bool)| (s.0@, s.1))
}

proof fn lemma_title_position_in_menu(title: Seq<char>, i: int)
    ensures
        title_position_from(title, i) matches Some(p) ==> 0 <= p < 15,
    decreases 15 - i,
{
    if 0 <= i < 15 {
        lemma_title_position_in_menu(title, i + 1);
    }
}

/// Where the menu cursor starts, given the saved sessions (see
/// [`resume_spec`]).
pub fn resume_position(sessions: &Vec<(String, bool)>) -> (p: usize)
    ensures
        p == resume_spec(sessions_view(sessions@)),
        p < 15,
{
    let ghost sv = sessions_view(sessions@);
    let mut k: usize = sessions.len();
    assert(sv.take(k as int) =~= sv);
    while k > 0
        invariant
            k <= sessions@.len(),
            sv == sessions_view(sessions@),
            last_lesson_session(sv) == last_lesson_session(sv.take(k as int)),
        decreases k,
    {
        let ghost pre = sv.take(k as int);
        assert(pre.last() == (sessions@[k - 1].0@, sessions@[k - 1].1));
        assert(pre.drop_last() == sv.take(k - 1));
        proof {
            lemma_title_position_in_menu(sessions@[k - 1].0@, 0);
        }
        match position_of_title(&sessions[k - 1].0) {
            Some(i) => {
                if sessions[k - 1].1 && i + 1 < 15 {
                    return i + 1;
                } else {
                    return i;
                }
            },
            None => {},
        }
        k -= 1;
    }
    assert(sv.take(0) =~= Seq::<(Seq<char>, bool)>::empty());
    0
}

/// Every layout's menu has the same number of lessons, with the same id and
/// title at each place; the last six lessons are the same for all layouts.
pub proof fn lemma_menus_agree(a: KeyboardLayout, b: KeyboardLayout, i: int)
    requires
        0 <= i < 15,
    ensures
        menu_lessons(a).len() == 15,
        menu_lessons(a)[i].id == menu_lessons(b)[i].id,
        menu_lessons(a)[i].title == menu_lessons(b)[i].title,
        i >= 9 ==> menu_lessons(a)[i] == menu_lessons(b)[i],
{
}

} // verus!
