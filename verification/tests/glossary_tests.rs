use helldivers2_cn_helper::glossary::{load_terms, prompt_with_official_terms, GlossaryDirection, OfficialTerm};

/// Rows of the exported glossary table that the scenarios below use.
fn glossary() -> Vec<OfficialTerm> {
    load_terms(
        "分类\t英文\t中文\t别名\n\
         敌人/目标\tSpore Burst Strain\t孢裂变种\tspore burst;spore strain;spore chargers\n\
         敌人/目标\tSpore Burst Hunter\t孢裂追猎虫\t\n\
         敌人/目标\tSpore Charger\t孢子强袭虫\t\n\
         敌人/目标\tCharger Behemoth\t巨兽级强袭虫\t\n\
         敌人/目标\tCharger\t强袭虫\t\n\
         敌人/目标\tHunter\t追猎虫\t\n\
         敌人/目标\tBile Titan\t吐酸泰坦\t\n\
         战备/武器\t40-K Meltagun\t热熔枪\tmeltagun\n\
         战备/武器\tAC-8 Autocannon\t机炮\tautocannon\n",
    )
}

#[test]
fn spore_burst_strain_matches_the_strain_name_and_shorthand() {
    let terms = glossary();
    let strain_prompt = prompt_with_official_terms(
        "base",
        "careful, spore burst incoming",
        GlossaryDirection::EnglishToChinese,
        &terms,
    );
    assert!(strain_prompt.contains("[敌人/目标] Spore Burst Strain=孢裂变种"));

    let shorthand_prompt = prompt_with_official_terms(
        "base",
        "spore strain bugs everywhere",
        GlossaryDirection::EnglishToChinese,
        &terms,
    );
    assert!(shorthand_prompt.contains("Spore Burst Strain=孢裂变种"));

    let enemy_prompt = prompt_with_official_terms(
        "base",
        "spore burst hunter on the left",
        GlossaryDirection::EnglishToChinese,
        &terms,
    );
    assert!(enemy_prompt.contains("[敌人/目标] Spore Burst Hunter=孢裂追猎虫"));
    assert!(!enemy_prompt.contains("Spore Burst Strain=孢裂变种"));

    let outgoing_prompt =
        prompt_with_official_terms("base", "孢裂变种来了", GlossaryDirection::ChineseToEnglish, &terms);
    assert!(outgoing_prompt.contains("[敌人/目标] 孢裂变种=Spore Burst Strain"));

    let plural_prompt = prompt_with_official_terms(
        "base",
        "spore chargers incoming",
        GlossaryDirection::EnglishToChinese,
        &terms,
    );
    assert!(plural_prompt.contains("[敌人/目标] Spore Burst Strain=孢裂变种"));
    assert!(!plural_prompt.contains("Spore Charger=孢子强袭虫"));

    let singular_prompt = prompt_with_official_terms(
        "base",
        "a spore charger on the right",
        GlossaryDirection::EnglishToChinese,
        &terms,
    );
    assert!(singular_prompt.contains("Spore Charger=孢子强袭虫"));
    assert!(!singular_prompt.contains("Spore Burst Strain=孢裂变种"));
}

#[test]
fn incoming_uses_the_longest_official_name() {
    let terms = glossary();
    let prompt = prompt_with_official_terms(
        "base",
        "charger behemoth on the right",
        GlossaryDirection::EnglishToChinese,
        &terms,
    );
    assert!(prompt.contains("[敌人/目标] Charger Behemoth=巨兽级强袭虫"));
    assert!(!prompt.contains("Charger=强袭虫"));
}

#[test]
fn incoming_matches_stratagem_and_weapon_aliases() {
    let terms = glossary();
    let prompt = prompt_with_official_terms(
        "base",
        "meltagun and autocannon ready",
        GlossaryDirection::EnglishToChinese,
        &terms,
    );
    assert!(prompt.contains("[战备/武器] 40-K Meltagun=热熔枪"));
    assert!(prompt.contains("[战备/武器] AC-8 Autocannon=机炮"));
}

#[test]
fn outgoing_adds_only_terms_present_in_the_message() {
    let terms = glossary();
    let prompt = prompt_with_official_terms(
        "base",
        "右边有追猎虫，带热熔枪",
        GlossaryDirection::ChineseToEnglish,
        &terms,
    );
    assert!(prompt.contains("[敌人/目标] 追猎虫=Hunter"));
    assert!(prompt.contains("[战备/武器] 热熔枪=40-K Meltagun"));
    assert!(!prompt.contains("吐酸泰坦=Bile Titan"));
}

#[test]
fn unrelated_chat_does_not_expand_the_prompt() {
    let terms = glossary();
    assert_eq!(
        prompt_with_official_terms(
            "base",
            "go left and wait",
            GlossaryDirection::EnglishToChinese,
            &terms
        ),
        "base"
    );
}
