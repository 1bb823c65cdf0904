//! Tribonacci sequences: every term after the first three is the sum of the three before it.

use vstd::prelude::*;

verus! {

/// The error a tribonacci computation reports, with its message.
pub struct TribonacciError(pub String);

#[verifier::external_type_specification]
#[verifier::external_body]
pub struct ExParseIntError(std::num::ParseIntError);

/// The terms of a sequence and their sum.
pub struct TribonacciReport {
    pub values: Vec<u128>,
    pub sum: u128,
}

/// Term `i` of the tribonacci sequence that starts 1, 1, 1.
pub open spec fn trib(i: nat) -> nat
    decreases i,
{
    if i < 3 {
        1
    } else {
        trib((i - 1) as nat) + trib((i - 2) as nat) + trib((i - 3) as nat)
    }
}

/// The sum of the first `n` terms.
pub open spec fn trib_sum(n: nat) -> nat
    decreases n,
{
    if n == 0 {
        0
    } else {
        trib_sum((n - 1) as nat) + trib((n - 1) as nat)
    }
}

/// How many terms a computation for `size` produces: at least the first three.
pub open spec fn term_count(size: nat) -> nat {
    if size < 3 {
        3
    } else {
        size
    }
}

/// The values and sum of a report hold the first `n` terms and their sum.
pub open spec fn reports_terms(r: TribonacciReport, n: nat) -> bool {
    &&& r.values@.len() == n
    &&& forall|i: int| 0 <= i < n ==> #[trigger] r.values@[i] == trib(i as nat)
    &&& r.sum == trib_sum(n)
}

/// Three consecutive terms from term `n` on, with the sum of the terms before `n`.
spec fn window(n: nat) -> (nat, nat, nat, nat)
    decreases n,
{
    if n == 0 {
        (1, 1, 1, 0)
    } else {
        let w = window((n - 1) as nat);
        (w.1, w.2, w.0 + w.1 + w.2, w.3 + w.0)
    }
}

proof fn lemma_window(n: nat)
    ensures
        window(n) == (trib(n), trib(n + 1), trib(n + 2), trib_sum(n)),
    decreases n,
{
    if n > 0 {
        lemma_window((n - 1) as nat);
        assert(trib(n + 2) == trib(n + 1) + trib(n) + trib((n - 1) as nat));
    }
}

/// Terms never decrease.
pub proof fn lemma_trib_monotonic(i: nat, j: nat)
    requires
        i <= j,
    ensures
        trib(i) <= trib(j),
    decreases j,
{
    if i < j {
        lemma_trib_monotonic(i, (j - 1) as nat);
        if j >= 3 {
            assert(trib(j) >= trib((j - 1) as nat));
        }
    }
}

/// Partial sums never decrease.
pub proof fn lemma_trib_sum_monotonic(i: nat, j: nat)
    requires
        i <= j,
    ensures
        trib_sum(i) <= trib_sum(j),
    decreases j,
{
    if i < j {
        lemma_trib_sum_monotonic(i, (j - 1) as nat);
    }
}

/// The first terms, computed one after the other.
proof fn lemma_first_windows()
    ensures
        window(146).0 <= u128::MAX,
        window(146).3 <= u128::MAX,
        window(147).3 > u128::MAX,
{
    assert(window(0) == (1nat, 1nat, 1nat, 0nat));
    assert(window(1) == (1nat, 1nat, 3nat, 1nat));
    assert(window(2) == (1nat, 3nat, 5nat, 2nat));
    assert(window(3) == (3nat, 5nat, 9nat, 3nat));
    assert(window(4) == (5nat, 9nat, 17nat, 6nat));
    assert(window(5) == (9nat, 17nat, 31nat, 11nat));
    assert(window(6) == (17nat, 31nat, 57nat, 20nat));
    assert(window(7) == (31nat, 57nat, 105nat, 37nat));
    assert(window(8) == (57nat, 105nat, 193nat, 68nat));
    assert(window(9) == (105nat, 193nat, 355nat, 125nat));
    assert(window(10) == (193nat, 355nat, 653nat, 230nat));
    assert(window(11) == (355nat, 653nat, 1201nat, 423nat));
    assert(window(12) == (653nat, 1201nat, 2209nat, 778nat));
    assert(window(13) == (1201nat, 2209nat, 4063nat, 1431nat));
    assert(window(14) == (2209nat, 4063nat, 7473nat, 2632nat));
    assert(window(15) == (4063nat, 7473nat, 13745nat, 4841nat));
    assert(window(16) == (7473nat, 13745nat, 25281nat, 8904nat));
    assert(window(17) == (13745nat, 25281nat, 46499nat, 16377nat));
    assert(window(18) == (25281nat, 46499nat, 85525nat, 30122nat));
    assert(window(19) == (46499nat, 85525nat, 157305nat, 55403nat));
    assert(window(20) == (85525nat, 157305nat, 289329nat, 101902nat));
    assert(window(21) == (157305nat, 289329nat, 532159nat, 187427nat));
    assert(window(22) == (289329nat, 532159nat, 978793nat, 344732nat));
    assert(window(23) == (532159nat, 978793nat, 1800281nat, 634061nat));
    assert(window(24) == (978793nat, 1800281nat, 3311233nat, 1166220nat));
    assert(window(25) == (1800281nat, 3311233nat, 6090307nat, 2145013nat));
    assert(window(26) == (3311233nat, 6090307nat, 11201821nat, 3945294nat));
    assert(window(27) == (6090307nat, 11201821nat, 20603361nat, 7256527nat));
    assert(window(28) == (11201821nat, 20603361nat, 37895489nat, 13346834nat));
    assert(window(29) == (20603361nat, 37895489nat, 69700671nat, 24548655nat));
    assert(window(30) == (37895489nat, 69700671nat, 128199521nat, 45152016nat));
    assert(window(31) == (69700671nat, 128199521nat, 235795681nat, 83047505nat));
    assert(window(32) == (128199521nat, 235795681nat, 433695873nat, 152748176nat));
    assert(window(33) == (235795681nat, 433695873nat, 797691075nat, 280947697nat));
    assert(window(34) == (433695873nat, 797691075nat, 1467182629nat, 516743378nat));
    assert(window(35) == (797691075nat, 1467182629nat, 2698569577nat, 950439251nat));
    assert(window(36) == (1467182629nat, 2698569577nat, 4963443281nat, 1748130326nat));
    assert(window(37) == (2698569577nat, 4963443281nat, 9129195487nat, 3215312955nat));
    assert(window(38) == (4963443281nat, 9129195487nat, 16791208345nat, 5913882532nat));
    assert(window(39) == (9129195487nat, 16791208345nat, 30883847113nat, 10877325813nat));
    assert(window(40) == (16791208345nat, 30883847113nat, 56804250945nat, 20006521300nat));
    assert(window(41) == (30883847113nat, 56804250945nat, 104479306403nat, 36797729645nat));
    assert(window(42) == (56804250945nat, 104479306403nat, 192167404461nat, 67681576758nat));
    assert(window(43) == (104479306403nat, 192167404461nat, 353450961809nat, 124485827703nat));
    assert(window(44) == (192167404461nat, 353450961809nat, 650097672673nat, 228965134106nat));
    assert(window(45) == (353450961809nat, 650097672673nat, 1195716038943nat, 421132538567nat));
    assert(window(46) == (650097672673nat, 1195716038943nat, 2199264673425nat, 774583500376nat));
    assert(window(47) == (1195716038943nat, 2199264673425nat, 4045078385041nat, 1424681173049nat));
    assert(window(48) == (2199264673425nat, 4045078385041nat, 7440059097409nat, 2620397211992nat));
    assert(window(49) == (4045078385041nat, 7440059097409nat, 13684402155875nat, 4819661885417nat));
    assert(window(50) == (7440059097409nat, 13684402155875nat, 25169539638325nat, 8864740270458nat));
    assert(window(51) == (13684402155875nat, 25169539638325nat, 46294000891609nat, 16304799367867nat));
    assert(window(52) == (25169539638325nat, 46294000891609nat, 85147942685809nat, 29989201523742nat));
    assert(window(53) == (46294000891609nat, 85147942685809nat, 156611483215743nat, 55158741162067nat));
    assert(window(54) == (85147942685809nat, 156611483215743nat, 288053426793161nat, 101452742053676nat));
    assert(window(55) == (156611483215743nat, 288053426793161nat, 529812852694713nat, 186600684739485nat));
    assert(window(56) == (288053426793161nat, 529812852694713nat, 974477762703617nat, 343212167955228nat));
    assert(window(57) == (529812852694713nat, 974477762703617nat, 1792344042191491nat, 631265594748389nat));
    assert(window(58) == (974477762703617nat, 1792344042191491nat, 3296634657589821nat, 1161078447443102nat));
    assert(window(59) == (1792344042191491nat, 3296634657589821nat, 6063456462484929nat, 2135556210146719nat));
    assert(window(60) == (3296634657589821nat, 6063456462484929nat, 11152435162266241nat, 3927900252338210nat));
    assert(window(61) == (6063456462484929nat, 11152435162266241nat, 20512526282340991nat, 7224534909928031nat));
    assert(window(62) == (11152435162266241nat, 20512526282340991nat, 37728417907092161nat, 13287991372412960nat));
    assert(window(63) == (20512526282340991nat, 37728417907092161nat, 69393379351699393nat, 24440426534679201nat));
    assert(window(64) == (37728417907092161nat, 69393379351699393nat, 127634323541132545nat, 44952952817020192nat));
    assert(window(65) == (69393379351699393nat, 127634323541132545nat, 234756120799924099nat, 82681370724112353nat));
    assert(window(66) == (127634323541132545nat, 234756120799924099nat, 431783823692756037nat, 152074750075811746nat));
    assert(window(67) == (234756120799924099nat, 431783823692756037nat, 794174268033812681nat, 279709073616944291nat));
    assert(window(68) == (431783823692756037nat, 794174268033812681nat, 1460714212526492817nat, 514465194416868390nat));
    assert(window(69) == (794174268033812681nat, 1460714212526492817nat, 2686672304253061535nat, 946249018109624427nat));
    assert(window(70) == (1460714212526492817nat, 2686672304253061535nat, 4941560784813367033nat, 1740423286143437108nat));
    assert(window(71) == (2686672304253061535nat, 4941560784813367033nat, 9088947301592921385nat, 3201137498669929925nat));
    assert(window(72) == (4941560784813367033nat, 9088947301592921385nat, 16717180390659349953nat, 5887809802922991460nat));
    assert(window(73) == (9088947301592921385nat, 16717180390659349953nat, 30747688477065638371nat, 10829370587736358493nat));
    assert(window(74) == (16717180390659349953nat, 30747688477065638371nat, 56553816169317909709nat, 19918317889329279878nat));
    assert(window(75) == (30747688477065638371nat, 56553816169317909709nat, 104018685037042898033nat, 36635498279988629831nat));
    assert(window(76) == (56553816169317909709nat, 104018685037042898033nat, 191320189683426446113nat, 67383186757054268202nat));
    assert(window(77) == (104018685037042898033nat, 191320189683426446113nat, 351892690889787253855nat, 123937002926372177911nat));
    assert(window(78) == (191320189683426446113nat, 351892690889787253855nat, 647231565610256598001nat, 227955687963415075944nat));
    assert(window(79) == (351892690889787253855nat, 647231565610256598001nat, 1190444446183470297969nat, 419275877646841522057nat));
    assert(window(80) == (647231565610256598001nat, 1190444446183470297969nat, 2189568702683514149825nat, 771168568536628775912nat));
    assert(window(81) == (1190444446183470297969nat, 2189568702683514149825nat, 4027244714477241045795nat, 1418400134146885373913nat));
    assert(window(82) == (2189568702683514149825nat, 4027244714477241045795nat, 7407257863344225493589nat, 2608844580330355671882nat));
    assert(window(83) == (4027244714477241045795nat, 7407257863344225493589nat, 13624071280504980689209nat, 4798413283013869821707nat));
    assert(window(84) == (7407257863344225493589nat, 13624071280504980689209nat, 25058573858326447228593nat, 8825657997491110867502nat));
    assert(window(85) == (13624071280504980689209nat, 25058573858326447228593nat, 46089903002175653411391nat, 16232915860835336361091nat));
    assert(window(86) == (25058573858326447228593nat, 46089903002175653411391nat, 84772548141007081329193nat, 29856987141340317050300nat));
    assert(window(87) == (46089903002175653411391nat, 84772548141007081329193nat, 155921025001509181969177nat, 54915560999666764278893nat));
    assert(window(88) == (84772548141007081329193nat, 155921025001509181969177nat, 286783476144691916709761nat, 101005464001842417690284nat));
    assert(window(89) == (155921025001509181969177nat, 286783476144691916709761nat, 527477049287208180008131nat, 185778012142849499019477nat));
    assert(window(90) == (286783476144691916709761nat, 527477049287208180008131nat, 970181550433409278687069nat, 341699037144358680988654nat));
    assert(window(91) == (527477049287208180008131nat, 970181550433409278687069nat, 1784442075865309375404961nat, 628482513289050597698415nat));
    assert(window(92) == (970181550433409278687069nat, 1784442075865309375404961nat, 3282100675585926834100161nat, 1155959562576258777706546nat));
    assert(window(93) == (1784442075865309375404961nat, 3282100675585926834100161nat, 6036724301884645488192191nat, 2126141113009668056393615nat));
    assert(window(94) == (3282100675585926834100161nat, 6036724301884645488192191nat, 11103267053335881697697313nat, 3910583188874977431798576nat));
    assert(window(95) == (6036724301884645488192191nat, 11103267053335881697697313nat, 20422092030806454019989665nat, 7192683864460904265898737nat));
    assert(window(96) == (11103267053335881697697313nat, 20422092030806454019989665nat, 37562083386026981205879169nat, 13229408166345549754090928nat));
    assert(window(97) == (20422092030806454019989665nat, 37562083386026981205879169nat, 69087442470169316923566147nat, 24332675219681431451788241nat));
    assert(window(98) == (37562083386026981205879169nat, 69087442470169316923566147nat, 127071617887002752149434981nat, 44754767250487885471777906nat));
    assert(window(99) == (69087442470169316923566147nat, 127071617887002752149434981nat, 233721143743199050278880297nat, 82316850636514866677657075nat));
    assert(window(100) == (127071617887002752149434981nat, 233721143743199050278880297nat, 429880204100371119351881425nat, 151404293106684183601223222nat));
    assert(window(101) == (233721143743199050278880297nat, 429880204100371119351881425nat, 790672965730572921780196703nat, 278475910993686935750658203nat));
    assert(window(102) == (429880204100371119351881425nat, 790672965730572921780196703nat, 1454274313574143091410958425nat, 512197054736885986029538500nat));
    assert(window(103) == (790672965730572921780196703nat, 1454274313574143091410958425nat, 2674827483405087132543036553nat, 942077258837257105381419925nat));
    assert(window(104) == (1454274313574143091410958425nat, 2674827483405087132543036553nat, 4919774762709803145734191681nat, 1732750224567830027161616628nat));
    assert(window(105) == (2674827483405087132543036553nat, 4919774762709803145734191681nat, 9048876559689033369688186659nat, 3187024538141973118572575053nat));
    assert(window(106) == (4919774762709803145734191681nat, 9048876559689033369688186659nat, 16643478805803923647965414893nat, 5861852021547060251115611606nat));
    assert(window(107) == (9048876559689033369688186659nat, 16643478805803923647965414893nat, 30612130128202760163387793233nat, 10781626784256863396849803287nat));
    assert(window(108) == (16643478805803923647965414893nat, 30612130128202760163387793233nat, 56304485493695717181041394785nat, 19830503343945896766537989946nat));
    assert(window(109) == (30612130128202760163387793233nat, 56304485493695717181041394785nat, 103560094427702400992394602911nat, 36473982149749820414503404839nat));
    assert(window(110) == (56304485493695717181041394785nat, 103560094427702400992394602911nat, 190476710049600878336823790929nat, 67086112277952580577891198072nat));
    assert(window(111) == (103560094427702400992394602911nat, 190476710049600878336823790929nat, 350341289970998996510259788625nat, 123390597771648297758932592857nat));
    assert(window(112) == (190476710049600878336823790929nat, 350341289970998996510259788625nat, 644378094448302275839478182465nat, 226950692199350698751327195768nat));
    assert(window(113) == (350341289970998996510259788625nat, 644378094448302275839478182465nat, 1185196094468902150686561762019nat, 417427402248951577088150986697nat));
    assert(window(114) == (644378094448302275839478182465nat, 1185196094468902150686561762019nat, 2179915478888203423036299733109nat, 767768692219950573598410775322nat));
    assert(window(115) == (1185196094468902150686561762019nat, 2179915478888203423036299733109nat, 4009489667805407849562339677593nat, 1412146786668252849437888957787nat));
    assert(window(116) == (2179915478888203423036299733109nat, 4009489667805407849562339677593nat, 7374601241162513423285201172721nat, 2597342881137155000124450719806nat));
    assert(window(117) == (4009489667805407849562339677593nat, 7374601241162513423285201172721nat, 13564006387856124695883840583423nat, 4777258360025358423160750452915nat));
    assert(window(118) == (7374601241162513423285201172721nat, 13564006387856124695883840583423nat, 24948097296824045968731381433737nat, 8786748027830766272723090130508nat));
    assert(window(119) == (13564006387856124695883840583423nat, 24948097296824045968731381433737nat, 45886704925842684087900423189881nat, 16161349268993279696008291303229nat));
    assert(window(120) == (24948097296824045968731381433737nat, 45886704925842684087900423189881nat, 84398808610522854752515645207041nat, 29725355656849404391892131886652nat));
    assert(window(121) == (45886704925842684087900423189881nat, 84398808610522854752515645207041nat, 155233610833189584809147449830659nat, 54673452953673450360623513320389nat));
    assert(window(122) == (84398808610522854752515645207041nat, 155233610833189584809147449830659nat, 285519124369555123649563518227581nat, 100560157879516134448523936510270nat));
    assert(window(123) == (155233610833189584809147449830659nat, 285519124369555123649563518227581nat, 525151543813267563211226613265281nat, 184958966490038989201039581717311nat));
    assert(window(124) == (285519124369555123649563518227581nat, 525151543813267563211226613265281nat, 965904279016012271669937581323521nat, 340192577323228574010187031547970nat));
    assert(window(125) == (525151543813267563211226613265281nat, 965904279016012271669937581323521nat, 1776574947198834958530727712816383nat, 625711701692783697659750549775551nat));
    assert(window(126) == (965904279016012271669937581323521nat, 1776574947198834958530727712816383nat, 3267630770028114793411891907405185nat, 1150863245506051260870977163040832nat));
    assert(window(127) == (1776574947198834958530727712816383nat, 3267630770028114793411891907405185nat, 6010109996242962023612557201545089nat, 2116767524522063532540914744364353nat));
    assert(window(128) == (3267630770028114793411891907405185nat, 6010109996242962023612557201545089nat, 11054315713469911775555176821766657nat, 3893342471720898491071642457180736nat));
    assert(window(129) == (6010109996242962023612557201545089nat, 11054315713469911775555176821766657nat, 20332056479740988592579625930716931nat, 7160973241749013284483534364585921nat));
    assert(window(130) == (11054315713469911775555176821766657nat, 20332056479740988592579625930716931nat, 37396482189453862391747359954028677nat, 13171083237991975308096091566131010nat));
    assert(window(131) == (20332056479740988592579625930716931nat, 37396482189453862391747359954028677nat, 68782854382664762759882162706512265nat, 24225398951461887083651268387897667nat));
    assert(window(132) == (37396482189453862391747359954028677nat, 68782854382664762759882162706512265nat, 126511393051859613744209148591257873nat, 44557455431202875676230894318614598nat));
    assert(window(133) == (68782854382664762759882162706512265nat, 126511393051859613744209148591257873nat, 232690729623978238895838671251798815nat, 81953937620656738067978254272643275nat));
    assert(window(134) == (126511393051859613744209148591257873nat, 232690729623978238895838671251798815nat, 427984977058502615399929982549568953nat, 150736792003321500827860416979155540nat));
    assert(window(135) == (232690729623978238895838671251798815nat, 427984977058502615399929982549568953nat, 787187099734340468039977802392625641nat, 277248185055181114572069565570413413nat));
    assert(window(136) == (427984977058502615399929982549568953nat, 787187099734340468039977802392625641nat, 1447862806416821322335746456193993409nat, 509938914679159353467908236822212228nat));
    assert(window(137) == (787187099734340468039977802392625641nat, 1447862806416821322335746456193993409nat, 2663034883209664405775654241136188003nat, 937923891737661968867838219371781181nat));
    assert(window(138) == (1447862806416821322335746456193993409nat, 2663034883209664405775654241136188003nat, 4898084789360826196151378499722807053nat, 1725110991472002436907816021764406822nat));
    assert(window(139) == (2663034883209664405775654241136188003nat, 4898084789360826196151378499722807053nat, 9008982478987311924262779197052988465nat, 3172973797888823759243562477958400231nat));
    assert(window(140) == (4898084789360826196151378499722807053nat, 9008982478987311924262779197052988465nat, 16570102151557802526189811937911983521nat, 5836008681098488165019216719094588234nat));
    assert(window(141) == (9008982478987311924262779197052988465nat, 16570102151557802526189811937911983521nat, 30477169419905940646603969634687779039nat, 10734093470459314361170595218817395287nat));
    assert(window(142) == (16570102151557802526189811937911983521nat, 30477169419905940646603969634687779039nat, 56056254050451055097056560769652751025nat, 19743075949446626285433374415870383752nat));
    assert(window(143) == (30477169419905940646603969634687779039nat, 56056254050451055097056560769652751025nat, 103103525621914798269850342342252513585nat, 36313178101004428811623186353782367273nat));
    assert(window(144) == (56056254050451055097056560769652751025nat, 103103525621914798269850342342252513585nat, 189636949092271794013510872746593043649nat, 66790347520910369458227155988470146312nat));
    assert(window(145) == (103103525621914798269850342342252513585nat, 189636949092271794013510872746593043649nat, 348796728764637647380417775858498308259nat, 122846601571361424555283716758122897337nat));
    assert(window(146) == (189636949092271794013510872746593043649nat, 348796728764637647380417775858498308259nat, 641537203478824239663778990947343865493nat, 225950127193276222825134059100375410922nat));
    assert(window(147) == (348796728764637647380417775858498308259nat, 641537203478824239663778990947343865493nat, 1179970881335733681057707639552435217401nat, 415587076285548016838644931846968454571nat));
}

/// The first 146 terms and their sum fit in a `u128`; the sum of the first 147 does not.
pub proof fn lemma_u128_limits()
    ensures
        trib(145) <= trib(146) <= u128::MAX,
        trib_sum(146) <= u128::MAX,
        trib_sum(147) > u128::MAX,
{
    lemma_first_windows();
    lemma_window(146);
    lemma_window(147);
    lemma_trib_monotonic(145, 146);
}

/// The first `max(size, 3)` terms of the sequence.
pub fn tribonacci_values(size: usize) -> (v: Vec<u128>)
    requires
        size <= 147,
    ensures
        v@.len() == term_count(size as nat),
        forall|i: int| 0 <= i < v@.len() ==> #[trigger] v@[i] == trib(i as nat),
{
    proof { lemma_u128_limits(); }
    let mut values: Vec<u128> = vec![1u128, 1u128, 1u128];
    let mut i: usize = 3;
    while i < size
        invariant
            3 <= i <= term_count(size as nat),
            size <= 147,
            values@.len() == i,
            forall|k: int| 0 <= k < i ==> #[trigger] values@[k] == trib(k as nat),
            trib(146) <= u128::MAX,
        decreases size - i,
    {
        proof {
            lemma_trib_monotonic(i as nat, 146);
        }
        let next = values[i - 1] + values[i - 2] + values[i - 3];
        values.push(next);
        i = i + 1;
    }
    values
}

/// The sum of the first `n` terms, given those terms.
pub fn sum_of_terms(values: &Vec<u128>) -> (s: u128)
    requires
        values@.len() <= 146,
        forall|i: int| 0 <= i < values@.len() ==> #[trigger] values@[i] == trib(i as nat),
    ensures
        s == trib_sum(values@.len() as nat),
{
    proof { lemma_u128_limits(); }
    let mut s: u128 = 0;
    let mut i: usize = 0;
    while i < values.len()
        invariant
            i <= values@.len() <= 146,
            forall|k: int| 0 <= k < values@.len() ==> #[trigger] values@[k] == trib(k as nat),
            s == trib_sum(i as nat),
            trib_sum(146) <= u128::MAX,
        decreases values@.len() - i,
    {
        proof {
            lemma_trib_sum_monotonic((i + 1) as nat, 146);
        }
        s = s + values[i];
        i = i + 1;
    }
    s
}

/// Computes the tribonacci sequence of a given size, with its sum. The first three
/// terms are always produced. A size that could not be read gives an error with the
/// message "Please enter a valid size". Sizes from 147 on overflow the sum of
/// `u128` terms and are left out.
pub fn compute_tribonacci(size: Result<usize, std::num::ParseIntError>) -> (r: Result<
    TribonacciReport,
    TribonacciError,
>)
    requires
        size matches Ok(n) ==> n <= 146,
    ensures
        size is Err <==> r is Err,
        r matches Err(e) ==> e.0@ == "Please enter a valid size"@,
        size matches Ok(n) ==> (r matches Ok(rep) && reports_terms(rep, term_count(n as nat))),
{
    match size {
        Ok(n) => {
            let values = tribonacci_values(n);
            let sum = sum_of_terms(&values);
            Ok(TribonacciReport { values, sum })
        },
        Err(_) => Err(TribonacciError(String::from_str("Please enter a valid size"))),
    }
}

/// Computes the sequence of `size` terms, where a size below 3 or above 145 is
/// refused with `error_msg`.
pub fn compute_tribonacci_in_range(size: Result<usize, std::num::ParseIntError>, error_msg: String) -> (r: Result<
    TribonacciReport,
    TribonacciError,
>)
    requires
        size is Ok,
    ensures
        r is Err <==> (size->Ok_0 < 3 || size->Ok_0 > 145),
        r matches Err(e) ==> e.0@ == error_msg@,
        r matches Ok(rep) ==> reports_terms(rep, size->Ok_0 as nat),
{
    let sz = match size {
        Ok(n) => n,
        Err(_) => 0,
    };
    if sz < 3 || sz > 145 {
        return Err(TribonacciError(error_msg));
    }
    let values = tribonacci_values(sz);
    let sum = sum_of_terms(&values);
    Ok(TribonacciReport { values, sum })
}

} // verus!
