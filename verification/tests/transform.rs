use discord_to_insta::strmap::StrMap;
use discord_to_insta::text::chars_of;
use discord_to_insta::transform::{
    collapse_inline_spaces, discord_to_caption, find_reactions_block, opens_reactions,
    replace_custom_emojis, settle_separator, strip_markdown, tidy,
};

fn map_of(pairs: &[(&str, &str)]) -> StrMap<String> {
    let mut map: StrMap<String> = StrMap::new();
    for (id, handle) in pairs {
        map.insert(id.to_string(), handle.to_string());
    }
    map
}

fn mayo_jaune_map() -> StrMap<String> {
    map_of(&[("699543821465419806", "bertrandbernager")])
}

const MAYO_JAUNE_RAW: &str = "@everyone\n\n⏰ RDV : Lundi 20 avril à 19h45 (départ 20h) sur la place de la Bastille à Paris ;\n📏 Distance : 20km ; D+ : 170m ;\n📍 Arrivée : Les Blédards, 161 Quai de Valmy, 75010 Paris ;\n⏩ Allure sur plat : 25+km/h ;\n🗺️ Cartographe : <@699543821465419806> ;\n🏁 Guides : On verra sur place ;\n🌍 Tout le monde est le bienvenu.\n\nThème : Haute Joaillerie 💎\nCette carte passe entre-autres par : Collection de Minéraux de Sorbonne Université, rue des Cinq Diamants, Musée de Minéralogie de l’École des Mines, Pyramide du Louvre, Place Vendôme, École des Arts Joailliers et le restaurant Les Diamantaires (ancien quartier du diamant) 💍\n\nRappel :\n- Vérifiez l'état de votre vélo avant la ride ⚙️ ;\n- Casque 🪖 et lampes avant et arrière 🔦 ;\n- Règles à respecter lorsque l'on roule à Mayo Jaune : <#1126221340056223816> ;\n- Retrouvez la trace sur notre compte komoot le jour suivant de la balade ;\n- Suivant la météo ou par manque de staff, la balade peut être annulée. Une annonce sera faite dans ce cas.\n\nRéactions :\n- Je viens : ✅ ;\n- Pas disponible : 🚫 ;\n- Pas encore sûr d'être disponible/j'attends de voir qui vient : 🤔\n1d";

#[test]
fn mayo_jaune_golden() {
    let got = discord_to_caption(MAYO_JAUNE_RAW, &mayo_jaune_map());
    assert!(!got.contains("@everyone"));
    assert!(!got.contains("<@"));
    assert!(!got.contains("<#"));
    assert!(!got.contains("Réactions"));
    assert!(!got.trim_end().ends_with("1d"));
    assert!(got.contains("@bertrandbernager"));
    assert!(got.contains("voir Discord (lien en bio)"));
    // Body preserved.
    assert!(got.contains("Thème : Haute Joaillerie 💎"));
    assert!(got.contains("Place Vendôme"));
}

#[test]
fn unknown_user_mention_is_dropped() {
    let raw = "Hello <@111> world";
    let got = discord_to_caption(raw, &StrMap::new());
    assert_eq!(got, "Hello world");
}

#[test]
fn channel_mention_becomes_bio_pointer() {
    let raw = "Rules: <#42>";
    let got = discord_to_caption(raw, &StrMap::new());
    assert_eq!(got, "Rules: voir Discord (lien en bio)");
}

#[test]
fn trailing_timestamp_removed() {
    let raw = "hello world\n2h";
    let got = discord_to_caption(raw, &StrMap::new());
    assert_eq!(got, "hello world");
}

#[test]
fn reactions_block_and_everything_after_removed() {
    let raw = "keep me\n\nRéactions :\n- A\n- B\ntrailing";
    let got = discord_to_caption(raw, &StrMap::new());
    assert_eq!(got, "keep me");
}

#[test]
fn custom_emoji_becomes_colon_name_colon() {
    assert_eq!(replace_custom_emojis("Hello <:sparkles:12345>!"), "Hello :sparkles:!");
    // Animated.
    assert_eq!(replace_custom_emojis("<a:dance:987654>"), ":dance:");
    // Multiple in one string.
    assert_eq!(
        replace_custom_emojis("<:one:111> and <:two:222>"),
        ":one: and :two:"
    );
}

#[test]
fn unicode_shortcodes_left_alone() {
    // Plain `:sparkles:` is a Unicode emoji shortcode — no angle brackets,
    // no numeric ID — so it must pass through untouched.
    assert_eq!(replace_custom_emojis("keep :this: alone"), "keep :this: alone");
}

#[test]
fn markdown_bold_italic_strike() {
    assert_eq!(strip_markdown("**bold** text"), "bold text");
    assert_eq!(strip_markdown("*italic* here"), "italic here");
    assert_eq!(strip_markdown("~~nope~~ yep"), "nope yep");
}

#[test]
fn markdown_underline_not_confused_with_snake_case() {
    assert_eq!(strip_markdown("__underline__"), "underline");
    // Crucially, single underscores stay — don't wreck file_name_here.
    assert_eq!(strip_markdown("the file_name_here.txt"), "the file_name_here.txt");
}

#[test]
fn markdown_inline_code_and_fence() {
    assert_eq!(strip_markdown("use `cargo test` please"), "use cargo test please");
    assert_eq!(
        strip_markdown("before\n```rust\nfn main() {}\n```\nafter"),
        "before\nfn main() {}\nafter"
    );
}

#[test]
fn markdown_headings_blockquotes_subtext_spoiler() {
    assert_eq!(strip_markdown("# Big\n## Medium\n### Small"), "Big\nMedium\nSmall");
    assert_eq!(strip_markdown("> quoted line\n> another"), "quoted line\nanother");
    assert_eq!(strip_markdown(">>> big quote block"), "big quote block");
    assert_eq!(strip_markdown("-# fine print"), "fine print");
    assert_eq!(strip_markdown("||spoiler text||"), "spoiler text");
}

#[test]
fn bracketed_urls_unwrapped() {
    let raw = "see <https://example.com/path?a=1> for details";
    let got = discord_to_caption(raw, &StrMap::new());
    assert_eq!(got, "see https://example.com/path?a=1 for details");
}

#[test]
fn combined_transform_with_markdown_and_custom_emoji() {
    // An announcement-shaped message that exercises the new rules
    // alongside the existing ones.
    let raw = "@everyone\n**⏰ RDV**: 20h *sur place*\n📏 Distance : 25km ;\n<:mayo:9999> let's ride";
    let got = discord_to_caption(raw, &StrMap::new());
    assert!(!got.contains("@everyone"));
    assert!(!got.contains("**"));
    assert!(!got.contains("<:mayo:"));
    assert!(got.contains(":mayo:"));
    assert!(got.contains("⏰ RDV"));
    assert!(got.contains("sur place"));
}

#[test]
fn known_user_mention_becomes_the_handle() {
    let map = map_of(&[("111", "ana"), ("222", "bob")]);
    assert_eq!(discord_to_caption("Hi <@111>, <@!222> and <@333>!", &map), "Hi @ana, @bob and !");
}

#[test]
fn role_mention_becomes_bio_pointer() {
    let got = discord_to_caption("Ask <@&42> now", &StrMap::new());
    assert_eq!(got, "Ask voir Discord (lien en bio) now");
}

#[test]
fn here_is_dropped_but_longer_words_stay() {
    assert_eq!(discord_to_caption("@here come", &StrMap::new()), "come");
    assert_eq!(discord_to_caption("@hereafter stays", &StrMap::new()), "@hereafter stays");
}

#[test]
fn reactions_line_without_accent_and_with_blanks() {
    let got = discord_to_caption("a\n  Reactions :  \nb", &StrMap::new());
    assert_eq!(got, "a");
}

#[test]
fn reactions_word_without_colon_stays() {
    let raw = "a\nRéactions bienvenues\nb";
    assert_eq!(discord_to_caption(raw, &StrMap::new()), raw);
}

#[test]
fn windows_line_ends_are_normalized() {
    assert_eq!(discord_to_caption("a\r\nb", &StrMap::new()), "a\nb");
    let got = discord_to_caption("keep\r\n\r\nRéactions :\r\n- A", &StrMap::new());
    assert_eq!(got, "keep");
}

#[test]
fn what_follows_the_reactions_line_does_not_matter() {
    let raw = "keep\nRéactions :";
    let more = format!("{raw}\n<@1> **x** and anything else");
    assert_eq!(discord_to_caption(raw, &StrMap::new()), discord_to_caption(&more, &StrMap::new()));
}

#[test]
fn only_a_trailing_relative_time_goes() {
    assert_eq!(discord_to_caption("a\n3w\nb\n5m\n", &StrMap::new()), "a\n3w\nb");
    assert_eq!(discord_to_caption("a\n3w\nb", &StrMap::new()), "a\n3w\nb");
}

#[test]
fn blanks_around_a_dropped_mention_collapse() {
    assert_eq!(collapsed("Cartographe :  ;"), "Cartographe :");
    assert_eq!(collapsed("a  ;\n\nb \t;\nc ;  d"), "a\n\nb\nc ; d");
    assert_eq!(discord_to_caption("Cartographe : <@1> ;", &StrMap::new()), "Cartographe :");
    let raw = "Cartographe : <@1> ;\nGuides : <@2> ; <@3>\nfin";
    let got = discord_to_caption(raw, &map_of(&[("3", "lea")]));
    assert_eq!(got, "Cartographe :\nGuides : ; @lea\nfin");
    assert_eq!(discord_to_caption("RDV @everyone ;\nfin", &StrMap::new()), "RDV\nfin");
    assert_eq!(discord_to_caption("Guides : <@1> <@2> ;\nfin", &StrMap::new()), "Guides :\nfin");
}

#[test]
fn a_separator_that_no_mention_left_dangling_stays() {
    let known = map_of(&[("1", "lea"), ("2", "x  ")]);
    assert_eq!(discord_to_caption("RDV 20h  ;", &known), "RDV 20h ;");
    assert_eq!(discord_to_caption("**RDV 20h  ;**\nfin", &known), "RDV 20h ;\nfin");
    assert_eq!(discord_to_caption("Guide : <@1>  ;", &known), "Guide : @lea ;");
    assert_eq!(discord_to_caption("<@9> RDV 20h  ;", &known), "RDV 20h ;");
    assert_eq!(discord_to_caption("<@9> et <@2>;", &known), "et @x ;");
    assert_eq!(discord_to_caption("RDV  ;<@9>", &known), "RDV ;");
}

#[test]
fn separators_are_settled_by_the_gap_before_them() {
    let settled = |line: &str, bare: &str, resolved: &str| -> String {
        settle_separator(&chars_of(line), &chars_of(bare), &chars_of(resolved)).iter().collect()
    };
    assert_eq!(settled("a <@1> ;", "a  ;", "a  ;"), "a");
    assert_eq!(settled("a <@1>;", "a ;", "a ;"), "a ;");
    assert_eq!(settled("a  ;", "a  ;", "a  ;"), "a  ;");
    assert_eq!(settled("<@2>;", "@;", "@x  ;"), "@x  ;");
}

fn collapsed(s: &str) -> String {
    collapse_inline_spaces(&chars_of(s)).iter().collect()
}

#[test]
fn a_separator_behind_one_blank_stays() {
    assert_eq!(tidy("Distance : 25km ;\nfin ;"), "Distance : 25km ;\nfin ;");
    assert_eq!(collapsed("Distance : 25km ;\nfin ;"), "Distance : 25km ;\nfin ;");
    assert_eq!(collapsed("a \t;b"), "a ;b");
    assert_eq!(tidy("a \t;"), "a ;");
}

#[test]
fn a_word_before_the_colon_opens_no_reactions_block() {
    let raw = "Réactions attendues :\nmerci";
    assert_eq!(find_reactions_block(&chars_of(raw)), None);
    assert_eq!(discord_to_caption(raw, &StrMap::new()), raw);
    assert!(!opens_reactions(&chars_of("Réactions : ✅")));
    assert!(!opens_reactions(&chars_of("Mes Réactions :")));
    assert!(!opens_reactions(&chars_of(":")));
    assert!(!opens_reactions(&chars_of("Réactions2 :")));
    assert!(opens_reactions(&chars_of("Réactions:")));
    assert!(opens_reactions(&chars_of("Réactions ::")));
    assert!(opens_reactions(&chars_of("Réactions : merci de répondre :")));
    assert!(opens_reactions(&chars_of("\tReactions \u{a0} : \r")));
}

#[test]
fn blank_lines_before_a_heading_stay() {
    assert_eq!(strip_markdown("intro\n\n# Titre"), "intro\n\nTitre");
    assert_eq!(strip_markdown("a\n\n  > b\n-#\tc"), "a\n\nb\nc");
    assert_eq!(strip_markdown("#\nfoo"), "\nfoo");
    assert_eq!(strip_markdown("a\n-#\n### b"), "a\n\nb");
    assert_eq!(strip_markdown("#\n\nb"), "\n\nb");
    assert_eq!(strip_markdown(">\nb\n#tag\n#"), "\nb\n#tag\n#");
}

#[test]
fn plain_text_is_its_own_caption() {
    let raw = "Une balade tranquille.\n\nÀ lundi !";
    assert_eq!(discord_to_caption(raw, &StrMap::new()), raw);
}

#[test]
fn caption_depends_on_the_handles_alone() {
    let a = map_of(&[("1", "x"), ("2", "y")]);
    let b = map_of(&[("2", "y"), ("1", "x")]);
    let raw = "<@2> <@1>";
    assert_eq!(discord_to_caption(raw, &a), "@y @x");
    assert_eq!(discord_to_caption(raw, &b), "@y @x");
}

#[test]
fn blanks_collapse_and_blank_lines_stay() {
    assert_eq!(tidy("  a \t b\n\n\tc  "), "a b\n\n c");
    assert_eq!(tidy(&tidy("  a \t b\n\n\tc  ")), tidy("  a \t b\n\n\tc  "));
    assert_eq!(tidy(""), "");
}
