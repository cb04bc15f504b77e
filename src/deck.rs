//! The deck: its initial table, selectors, compressed form, and the public
//! inputs handed to the shuffle verifier.
use crate::bitmaps::BitMap256;
use crate::curve::digits;
use crate::error::DeckError;
use crate::types::{num_cards_of, CompressedDeck, DeckConfig};
use crate::uint::{le_value, lemma_le_value_32, U256};
use vstd::prelude::*;

verus! {

/// All ones over 52 bits.
pub const SELECTOR0_BASE: u128 = 4503599627370495;

/// Sign pattern of the unshuffled deck's second points.
pub const SELECTOR1_BASE: u128 = 3075935501959818;

/// Entry `i` of the x1 coordinates of an unshuffled 52-card deck.
pub open spec fn init_x1_at(i: int) -> nat {
    if i == 0 {
        digits(52996192406415512816348655835182970302, 82874472190772894086521144482721001553)
    } else if i == 1 {
        digits(100312621719275401486673555263690343980, 30886437092045105752248699557385197826)
    } else if i == 2 {
        digits(27634883221679370396163259055160462176, 94264098671987087929565332380420898366)
    } else if i == 3 {
        digits(122528866048261923169287899297063973498, 46234911198931249025449955069330867144)
    } else if i == 4 {
        digits(114809662710464304306138412181471967732, 52373073876138147006741179837832100836)
    } else if i == 5 {
        digits(104839911651969957317607168707255091903, 15033255344071753161464961897900552628)
    } else if i == 6 {
        digits(200925606612133390450228777474842452383, 24772779820628739268223482659246842641)
    } else if i == 7 {
        digits(75820354756271936407972765054180021666, 91739036475590846121162698650004832581)
    } else if i == 8 {
        digits(47058972432037186910356043139138997177, 60209962238015362153877735592901317263)
    } else if i == 9 {
        digits(1532409200240905271492385951276509837, 36082984617707450012091413752625486998)
    } else if i == 10 {
        digits(216055158518204328809642352410692342022, 84600780825340516808373216881770219365)
    } else if i == 11 {
        digits(137454449423339358311054762628724955302, 32646590228527111681360848540626474828)
    } else if i == 12 {
        digits(26450681565830850507954098447939524963, 41966587935372213947442411891928926825)
    } else if i == 13 {
        digits(62715733125461481603296296738152404586, 76221818610765478794395550121752710497)
    } else if i == 14 {
        digits(59587874065884185005952395459742750394, 55545059833263445973445578199987122248)
    } else if i == 15 {
        digits(205357510081376624586508926438578541773, 64093782887716696778361156345824450120)
    } else if i == 16 {
        digits(135638362347672895705097768152391387002, 27815546336980653685219619269419222465)
    } else if i == 17 {
        digits(42751296847932091009086176292328734906, 59349646726316579174764020734442970715)
    } else if i == 18 {
        digits(35806830668942613443428687445957013719, 83032382764484483883828834921866692509)
    } else if i == 19 {
        digits(185247604694875402720869820722483529189, 77679699605098074565248706868593560314)
    } else if i == 20 {
        digits(21544270249353299391761719891527760241, 24432978019445096214692532430076957041)
    } else if i == 21 {
        digits(18162412980588619115022882209622176525, 87610581887494755882131860274208736174)
    } else if i == 22 {
        digits(36391720541272979214744988149362079706, 55189294143443965871382146718894049550)
    } else if i == 23 {
        digits(181535847598529553219930609093156865085, 15263790058719796143606868729795593935)
    } else if i == 24 {
        digits(51769496921725625475309947730114404852, 02239217591064534480919561343940681001)
    } else if i == 25 {
        digits(117824485965649239202734430672792246610, 23825032511758933679941945201390953176)
    } else if i == 26 {
        digits(151154141801666615826574331684093975834, 03678199440414913931998371087153331677)
    } else if i == 27 {
        digits(161033120537327771987703855926125694419, 25896554538398460782269366791789650450)
    } else if i == 28 {
        digits(156345738542562615525266919289344879817, 18036067957117047207941471691510256035)
    } else if i == 29 {
        digits(135220143003685278571244480280070172316, 20180728959917395934408529470498717410)
    } else if i == 30 {
        digits(88495971513847617546624323496477921818, 32839105149516511288109154560963346222)
    } else if i == 31 {
        digits(176377728692924113501627122061606213917, 99277598172371975548617963057997942415)
    } else if i == 32 {
        digits(178654420883367067772558249558745110434, 18354156735081989302076911109600783679)
    } else if i == 33 {
        digits(96255672894043307716106191706595673846, 20399410607101202415837683782273761636)
    } else if i == 34 {
        digits(193738146492677091588868842699956979098, 95888146244662021464982318704042596931)
    } else if i == 35 {
        digits(73901387162824559284069311222986809640, 08854655730225979945397780138931089133)
    } else if i == 36 {
        digits(155693070016440771184149511585704846555, 82938985123060674676216828593082531204)
    } else if i == 37 {
        digits(55740292694353469016102534608311537547, 05524733306961972891617297155450271275)
    } else if i == 38 {
        digits(194136186161872677232747005022682172661, 96958882113475472385469940329254284367)
    } else if i == 39 {
        digits(41508418814778200623211173535254611486, 95942145446006780376429869296310489891)
    } else if i == 40 {
        digits(130062189509374755275527559607143704511, 46844872354184015492231133933291271706)
    } else if i == 41 {
        digits(27568172654363083731529709804694077086, 39447434621224209076647801443201833641)
    } else if i == 42 {
        digits(207533320166922980370707255194987068560, 18536650957009186217190802393636394798)
    } else if i == 43 {
        digits(186773535252958485107826799691083026593, 01585542508993181681541803916576179951)
    } else if i == 44 {
        digits(141830239477111689029459255256378897996, 56706942453336661550553836881551350544)
    } else if i == 45 {
        digits(99181299804997200753122973359854461990, 40718987227835782934042132813716932162)
    } else if i == 46 {
        digits(133871581713065691813357744367114191780, 64369889548869994718755907103728849628)
    } else if i == 47 {
        digits(67462897645290631177572759781511372092, 80572017166985325039920625187571527186)
    } else if i == 48 {
        digits(173865945047429878677091991239404071146, 22143705013582123660965311449576087929)
    } else if i == 49 {
        digits(113933566148774051987830447119980436313, 51342484007264997044462092350229714918)
    } else if i == 50 {
        digits(162572602906744547257616055974951736788, 03471245971702030005143987297548407836)
    } else {
        digits(36730829784015978001406530848196668736, 66278094336864183112751111018951461681)
    }
}

/// The x1 coordinates of an unshuffled 52-card deck; a deck of N cards uses the first N.
pub open spec fn init_x1() -> Seq<nat> {
    Seq::new(52, |i: int| init_x1_at(i))
}

/// Little-endian bytes of entry `i` of the unshuffled deck.
#[verifier::rlimit(100)]
#[verifier::spinoff_prover]
fn init_x1_bytes(i: usize) -> (r: [u8; 32])
    requires
        i < 52,
    ensures
        le_value(r@) == init_x1_at(i as int),
{
    match i {
        0 => {
            let b: [u8; 32] = [81, 112, 149, 187, 246, 243, 147, 40, 182, 224, 52, 5, 1, 216, 184, 42, 193, 119, 98, 157, 224, 178, 172, 78, 155, 115, 62, 214, 106, 122, 183, 11];
            proof {
                lemma_le_value_32(b@);
            }
            b
        },
        1 => {
            let b: [u8; 32] = [2, 217, 29, 248, 213, 220, 159, 235, 95, 139, 85, 79, 202, 207, 51, 17, 107, 132, 91, 227, 39, 210, 242, 130, 28, 250, 3, 121, 65, 126, 45, 22];
            proof {
                lemma_le_value_32(b@);
            }
            b
        },
        2 => {
            let b: [u8; 32] = [62, 126, 71, 112, 171, 180, 252, 0, 128, 91, 105, 147, 173, 71, 201, 51, 124, 207, 77, 35, 200, 135, 232, 55, 128, 0, 195, 209, 54, 20, 28, 6];
            proof {
                lemma_le_value_32(b@);
            }
            b
        },
        3 => {
            let b: [u8; 32] = [200, 67, 190, 253, 42, 35, 228, 55, 196, 75, 90, 247, 174, 226, 218, 93, 198, 60, 136, 170, 56, 200, 152, 51, 215, 104, 61, 149, 87, 227, 22, 27];
            proof {
                lemma_le_value_32(b@);
            }
            b
        },
        4 => {
            let b: [u8; 32] = [228, 251, 225, 96, 24, 62, 68, 251, 185, 200, 121, 92, 211, 140, 230, 221, 210, 222, 245, 88, 162, 89, 228, 243, 210, 47, 129, 21, 35, 255, 97, 25];
            proof {
                lemma_le_value_32(b@);
            }
            b
        },
        5 => {
            let b: [u8; 32] = [180, 49, 248, 55, 113, 42, 62, 17, 87, 114, 120, 18, 229, 157, 21, 124, 48, 186, 68, 254, 8, 51, 34, 101, 184, 69, 19, 35, 141, 186, 45, 23];
            proof {
                lemma_le_value_32(b@);
            }
            b
        },
        6 => {
            let b: [u8; 32] = [17, 35, 110, 30, 207, 73, 118, 150, 186, 175, 68, 44, 181, 196, 236, 99, 95, 236, 138, 236, 54, 193, 110, 226, 56, 237, 86, 224, 127, 252, 107, 44];
            proof {
                lemma_le_value_32(b@);
            }
            b
        },
        7 => {
            let b: [u8; 32] = [69, 65, 253, 191, 9, 155, 180, 124, 143, 242, 164, 9, 114, 54, 151, 130, 159, 2, 205, 158, 194, 159, 143, 103, 106, 119, 146, 53, 174, 71, 195, 16];
            proof {
                lemma_le_value_32(b@);
            }
            b
        },
        8 => {
            let b: [u8; 32] = [143, 146, 157, 133, 5, 163, 118, 171, 189, 202, 71, 109, 89, 221, 160, 164, 62, 75, 111, 0, 177, 68, 165, 182, 5, 217, 108, 253, 133, 113, 103, 10];
            proof {
                lemma_le_value_32(b@);
            }
            b
        },
        9 => {
            let b: [u8; 32] = [150, 220, 195, 213, 184, 50, 77, 185, 223, 170, 193, 102, 194, 236, 218, 175, 176, 166, 66, 162, 30, 109, 190, 69, 69, 229, 130, 161, 53, 187, 86, 0];
            proof {
                lemma_le_value_32(b@);
            }
            b
        },
        10 => {
            let b: [u8; 32] = [101, 199, 55, 88, 112, 204, 123, 216, 66, 152, 66, 78, 88, 132, 137, 133, 19, 226, 38, 193, 173, 146, 96, 208, 73, 83, 12, 221, 226, 73, 196, 47];
            proof {
                lemma_le_value_32(b@);
            }
            b
        },
        11 => {
            let b: [u8; 32] = [76, 87, 38, 89, 146, 146, 200, 70, 179, 55, 0, 73, 225, 226, 21, 235, 171, 220, 255, 247, 121, 131, 176, 120, 67, 20, 139, 61, 105, 165, 99, 30];
            proof {
                lemma_le_value_32(b@);
            }
            b
        },
        12 => {
            let b: [u8; 32] = [105, 10, 225, 12, 106, 99, 70, 99, 157, 23, 146, 102, 213, 95, 228, 100, 114, 143, 202, 128, 19, 176, 135, 104, 125, 150, 252, 192, 54, 14, 217, 5];
            proof {
                lemma_le_value_32(b@);
            }
            b
        },
        13 => {
            let b: [u8; 32] = [97, 205, 214, 185, 5, 16, 5, 135, 145, 94, 59, 190, 58, 88, 130, 219, 192, 23, 22, 105, 243, 232, 66, 108, 233, 248, 199, 13, 175, 149, 221, 13];
            proof {
                lemma_le_value_32(b@);
            }
            b
        },
        14 => {
            let b: [u8; 32] = [72, 240, 23, 92, 80, 127, 177, 112, 236, 172, 210, 129, 59, 168, 207, 51, 165, 43, 2, 56, 21, 213, 208, 253, 233, 53, 215, 253, 220, 141, 44, 13];
            proof {
                lemma_le_value_32(b@);
            }
            b
        },
        15 => {
            let b: [u8; 32] = [72, 150, 38, 18, 208, 70, 255, 26, 190, 65, 149, 239, 55, 107, 233, 156, 87, 192, 107, 70, 3, 93, 150, 226, 165, 133, 211, 123, 187, 210, 102, 45];
            proof {
                lemma_le_value_32(b@);
            }
            b
        },
        16 => {
            let b: [u8; 32] = [193, 69, 68, 244, 62, 72, 104, 181, 69, 182, 51, 117, 122, 95, 71, 219, 68, 220, 70, 148, 186, 11, 235, 171, 169, 210, 159, 227, 247, 219, 252, 29];
            proof {
                lemma_le_value_32(b@);
            }
            b
        },
        17 => {
            let b: [u8; 32] = [91, 158, 89, 211, 109, 52, 159, 126, 244, 242, 116, 95, 165, 39, 138, 117, 223, 103, 70, 217, 11, 184, 251, 197, 186, 214, 220, 55, 61, 163, 115, 9];
            proof {
                lemma_le_value_32(b@);
            }
            b
        },
        18 => {
            let b: [u8; 32] = [157, 135, 25, 1, 186, 136, 93, 166, 198, 103, 29, 192, 60, 96, 107, 142, 27, 174, 88, 66, 232, 195, 89, 141, 174, 23, 202, 141, 68, 152, 234, 7];
            proof {
                lemma_le_value_32(b@);
            }
            b
        },
        19 => {
            let b: [u8; 32] = [250, 10, 172, 191, 97, 95, 149, 177, 136, 210, 27, 40, 228, 229, 11, 4, 150, 251, 149, 75, 48, 27, 173, 213, 238, 245, 253, 187, 146, 164, 244, 40];
            proof {
                lemma_le_value_32(b@);
            }
            b
        },
        20 => {
            let b: [u8; 32] = [113, 209, 196, 112, 19, 210, 72, 80, 158, 233, 197, 36, 197, 89, 94, 150, 244, 107, 68, 90, 97, 217, 176, 239, 130, 180, 145, 184, 203, 92, 195, 4];
            proof {
                lemma_le_value_32(b@);
            }
            b
        },
        21 => {
            let b: [u8; 32] = [174, 131, 154, 146, 122, 159, 21, 189, 81, 23, 112, 150, 201, 12, 32, 241, 207, 160, 200, 40, 127, 186, 60, 221, 236, 88, 93, 240, 197, 244, 3, 4];
            proof {
                lemma_le_value_32(b@);
            }
            b
        },
        22 => {
            let b: [u8; 32] = [14, 201, 30, 241, 27, 26, 49, 238, 243, 134, 12, 247, 9, 249, 226, 14, 88, 213, 53, 240, 45, 113, 67, 206, 222, 12, 113, 170, 201, 178, 11, 8];
            proof {
                lemma_le_value_32(b@);
            }
            b
        },
        23 => {
            let b: [u8; 32] = [207, 70, 30, 242, 10, 58, 181, 150, 46, 151, 175, 123, 9, 231, 118, 247, 100, 51, 75, 0, 208, 50, 32, 15, 159, 140, 147, 123, 154, 144, 34, 40];
            proof {
                lemma_le_value_32(b@);
            }
            b
        },
        24 => {
            let b: [u8; 32] = [41, 221, 3, 236, 205, 16, 177, 130, 219, 84, 9, 15, 40, 204, 103, 81, 117, 77, 164, 120, 58, 209, 96, 138, 34, 55, 106, 102, 184, 12, 114, 11];
            proof {
                lemma_le_value_32(b@);
            }
            b
        },
        25 => {
            let b: [u8; 32] = [216, 162, 38, 172, 112, 195, 238, 171, 32, 155, 206, 8, 38, 17, 146, 9, 225, 123, 183, 30, 108, 24, 78, 238, 234, 92, 157, 11, 44, 161, 12, 26];
            proof {
                lemma_le_value_32(b@);
            }
            b
        },
        26 => {
            let b: [u8; 32] = [221, 125, 23, 107, 124, 145, 123, 235, 10, 147, 36, 114, 8, 165, 159, 51, 217, 210, 221, 105, 13, 132, 116, 143, 230, 167, 253, 120, 112, 5, 107, 33];
            proof {
                lemma_le_value_32(b@);
            }
            b
        },
        27 => {
            let b: [u8; 32] = [18, 162, 224, 59, 175, 240, 162, 40, 230, 237, 110, 182, 70, 183, 18, 116, 68, 15, 38, 26, 178, 36, 214, 3, 26, 119, 84, 41, 209, 38, 154, 35];
            proof {
                lemma_le_value_32(b@);
            }
            b
        },
        28 => {
            let b: [u8; 32] = [163, 17, 202, 192, 124, 155, 34, 67, 139, 39, 115, 115, 192, 232, 216, 37, 16, 170, 64, 209, 45, 215, 193, 199, 18, 219, 44, 9, 239, 218, 144, 34];
            proof {
                lemma_le_value_32(b@);
            }
            b
        },
        29 => {
            let b: [u8; 32] = [226, 190, 18, 150, 239, 235, 30, 117, 169, 98, 199, 72, 252, 233, 211, 243, 174, 244, 73, 146, 89, 117, 245, 57, 155, 58, 72, 32, 90, 48, 229, 29];
            proof {
                lemma_le_value_32(b@);
            }
            b
        },
        30 => {
            let b: [u8; 32] = [46, 127, 181, 45, 88, 181, 93, 84, 149, 108, 137, 137, 22, 206, 63, 243, 178, 180, 100, 185, 43, 108, 180, 89, 33, 45, 168, 217, 201, 177, 144, 19];
            proof {
                lemma_le_value_32(b@);
            }
            b
        },
        31 => {
            let b: [u8; 32] = [143, 14, 184, 116, 13, 108, 232, 185, 197, 176, 71, 20, 255, 107, 230, 252, 180, 51, 102, 69, 168, 99, 115, 99, 47, 182, 176, 28, 44, 160, 254, 38];
            proof {
                lemma_le_value_32(b@);
            }
            b
        },
        32 => {
            let b: [u8; 32] = [63, 45, 33, 184, 220, 155, 155, 184, 83, 61, 155, 231, 185, 59, 225, 115, 5, 10, 83, 47, 114, 25, 101, 152, 181, 230, 191, 201, 92, 123, 127, 39];
            proof {
                lemma_le_value_32(b@);
            }
            b
        },
        33 => {
            let b: [u8; 32] = [100, 129, 228, 86, 255, 6, 39, 137, 245, 103, 200, 65, 169, 142, 103, 95, 138, 183, 67, 130, 59, 1, 107, 148, 206, 136, 232, 239, 197, 224, 71, 21];
            proof {
                lemma_le_value_32(b@);
            }
            b
        },
        34 => {
            let b: [u8; 32] = [67, 90, 14, 193, 198, 208, 79, 221, 39, 192, 221, 7, 143, 88, 200, 207, 55, 101, 149, 98, 127, 10, 151, 244, 19, 71, 234, 151, 196, 48, 213, 42];
            proof {
                lemma_le_value_32(b@);
            }
            b
        },
        35 => {
            let b: [u8; 32] = [237, 110, 181, 222, 138, 246, 9, 172, 97, 83, 202, 247, 171, 39, 80, 150, 176, 56, 79, 184, 192, 251, 5, 33, 219, 188, 5, 207, 151, 171, 86, 16];
            proof {
                lemma_le_value_32(b@);
            }
            b
        },
        36 => {
            let b: [u8; 32] = [132, 253, 36, 125, 152, 43, 26, 63, 38, 137, 120, 67, 49, 243, 136, 197, 207, 81, 92, 60, 191, 46, 239, 64, 144, 201, 164, 236, 92, 234, 107, 34];
            proof {
                lemma_le_value_32(b@);
            }
            b
        },
        37 => {
            let b: [u8; 32] = [43, 246, 4, 217, 38, 88, 117, 14, 226, 145, 250, 199, 114, 116, 184, 133, 94, 230, 169, 80, 222, 205, 38, 138, 51, 118, 197, 128, 236, 201, 82, 12];
            proof {
                lemma_le_value_32(b@);
            }
            b
        },
        38 => {
            let b: [u8; 32] = [79, 236, 56, 46, 199, 94, 247, 110, 159, 228, 235, 215, 82, 178, 243, 238, 17, 59, 133, 203, 183, 253, 242, 56, 82, 140, 89, 200, 255, 183, 235, 42];
            proof {
                lemma_le_value_32(b@);
            }
            b
        },
        39 => {
            let b: [u8; 32] = [35, 19, 207, 82, 49, 133, 126, 118, 58, 246, 249, 45, 33, 101, 64, 45, 83, 150, 37, 252, 219, 250, 60, 153, 16, 124, 130, 95, 18, 75, 45, 9];
            proof {
                lemma_le_value_32(b@);
            }
            b
        },
        40 => {
            let b: [u8; 32] = [26, 118, 237, 188, 122, 131, 186, 203, 76, 187, 5, 189, 122, 204, 90, 88, 47, 84, 101, 34, 184, 145, 125, 135, 32, 206, 207, 76, 81, 66, 193, 28];
            proof {
                lemma_le_value_32(b@);
            }
            b
        },
        41 => {
            let b: [u8; 32] = [169, 218, 87, 149, 13, 32, 176, 240, 3, 91, 150, 17, 164, 255, 80, 113, 177, 128, 9, 181, 140, 211, 193, 233, 35, 120, 161, 146, 163, 77, 24, 6];
            proof {
                lemma_le_value_32(b@);
            }
            b
        },
        42 => {
            let b: [u8; 32] = [46, 215, 1, 52, 177, 186, 211, 113, 116, 63, 157, 122, 210, 113, 204, 73, 17, 251, 244, 74, 27, 136, 99, 10, 242, 94, 191, 162, 59, 248, 225, 45];
            proof {
                lemma_le_value_32(b@);
            }
            b
        },
        43 => {
            let b: [u8; 32] = [239, 70, 148, 178, 80, 8, 130, 168, 79, 135, 95, 29, 168, 18, 218, 240, 233, 199, 233, 26, 224, 214, 83, 197, 238, 203, 243, 190, 233, 1, 75, 41];
            proof {
                lemma_le_value_32(b@);
            }
            b
        },
        44 => {
            let b: [u8; 32] = [16, 219, 88, 104, 76, 181, 204, 106, 101, 194, 190, 0, 6, 254, 115, 91, 71, 86, 93, 255, 76, 194, 21, 17, 172, 152, 57, 159, 156, 78, 91, 31];
            proof {
                lemma_le_value_32(b@);
            }
            b
        },
        45 => {
            let b: [u8; 32] = [66, 70, 148, 129, 187, 194, 170, 2, 112, 48, 148, 20, 33, 248, 205, 184, 40, 136, 161, 142, 151, 80, 247, 243, 140, 30, 22, 69, 111, 118, 237, 21];
            proof {
                lemma_le_value_32(b@);
            }
            b
        },
        46 => {
            let b: [u8; 32] = [220, 210, 171, 201, 145, 177, 241, 69, 130, 118, 180, 242, 102, 211, 244, 63, 219, 150, 37, 157, 76, 92, 23, 171, 84, 232, 215, 74, 238, 220, 152, 29];
            proof {
                lemma_le_value_32(b@);
            }
            b
        },
        47 => {
            let b: [u8; 32] = [18, 110, 214, 70, 2, 2, 0, 54, 243, 237, 14, 158, 18, 137, 3, 255, 177, 70, 247, 128, 43, 106, 197, 207, 101, 148, 156, 227, 194, 67, 234, 14];
            proof {
                lemma_le_value_32(b@);
            }
            b
        },
        48 => {
            let b: [u8; 32] = [121, 161, 73, 180, 199, 108, 161, 194, 154, 66, 47, 62, 194, 41, 0, 251, 5, 143, 117, 215, 91, 24, 131, 203, 105, 146, 215, 195, 184, 118, 112, 38];
            proof {
                lemma_le_value_32(b@);
            }
            b
        },
        49 => {
            let b: [u8; 32] = [230, 23, 46, 127, 109, 118, 6, 108, 115, 153, 194, 125, 32, 222, 6, 207, 126, 180, 120, 249, 133, 34, 160, 140, 66, 63, 43, 84, 76, 105, 48, 25];
            proof {
                lemma_le_value_32(b@);
            }
            b
        },
        50 => {
            let b: [u8; 32] = [28, 148, 62, 60, 202, 127, 126, 100, 76, 139, 165, 198, 31, 216, 81, 100, 96, 192, 55, 176, 94, 44, 117, 43, 186, 199, 140, 162, 130, 72, 241, 35];
            proof {
                lemma_le_value_32(b@);
            }
            b
        },
        _ => {
            let b: [u8; 32] = [49, 203, 155, 191, 120, 159, 120, 1, 242, 252, 172, 171, 139, 171, 28, 89, 58, 136, 223, 59, 16, 8, 146, 232, 232, 164, 53, 193, 43, 228, 30, 8];
            proof {
                lemma_le_value_32(b@);
            }
            b
        },
    }
}

/// A value of the unshuffled table, as a number.
pub fn init_x1_value(i: usize) -> (r: U256)
    requires
        i < 52,
    ensures
        r@ == init_x1()[i as int],
{
    U256::from_le_bytes(init_x1_bytes(i))
}

/// The 52 values of the unshuffled table.
pub fn initial_x1_values() -> (r: Vec<U256>)
    ensures
        r@.len() == 52,
        forall|i: int| 0 <= i < 52 ==> (#[trigger] r@[i])@ == init_x1()[i],
{
    let mut r: Vec<U256> = Vec::new();
    let mut i: usize = 0;
    while i < 52
        invariant
            i <= 52,
            r@.len() == i,
            forall|k: int| 0 <= k < i ==> (#[trigger] r@[k])@ == init_x1()[k],
        decreases 52 - i,
    {
        r.push(init_x1_value(i));
        i = i + 1;
    }
    r
}

/// Position of `x1` among the first N values of the table, N being the deck's size.
pub fn card_index_from_x1(x1: &U256, config: DeckConfig) -> (r: Option<u32>)
    ensures
        match r {
            Some(k) => k < num_cards_of(config) && init_x1()[k as int] == x1@ && forall|j: int|
                0 <= j < k ==> init_x1()[j] != x1@,
            None => forall|j: int| 0 <= j < num_cards_of(config) ==> init_x1()[j] != x1@,
        },
{
    let limit = config.num_cards() as usize;
    let mut i: usize = 0;
    while i < limit
        invariant
            i <= limit == num_cards_of(config) <= 52,
            forall|j: int| 0 <= j < i ==> init_x1()[j] != x1@,
        decreases limit - i,
    {
        if init_x1_value(i).equals(x1) {
            return Some(i as u32);
        }
        i = i + 1;
    }
    None
}

/// `base >> (52 − deck_size)`: the selector of a deck of that size.
pub fn selector_for(deck_size: u32, base: u128) -> (r: BitMap256)
    requires
        deck_size <= 52,
    ensures
        r.data@ == base >> ((52 - deck_size) as u128),
{
    let shift = 52u32 - deck_size;
    BitMap256::from_u128(base >> shift)
}

/// A deck of N cards as the coordinator holds it.
#[derive(Clone, Debug)]
pub struct Deck {
    pub config: DeckConfig,
    pub x0: Vec<U256>,
    pub x1: Vec<U256>,
    pub y0: Vec<U256>,
    pub y1: Vec<U256>,
    pub selector0: BitMap256,
    pub selector1: BitMap256,
    pub decrypt_record: Vec<BitMap256>,
    pub cards_to_deal: BitMap256,
    pub player_to_deal: u32,
}

/// The numbers held by a vector of `U256`.
pub open spec fn values(v: Seq<U256>) -> Seq<nat> {
    v.map_values(|x: U256| x@)
}

/// `s` cut or padded with zeros to length n.
pub open spec fn resized(s: Seq<nat>, n: nat) -> Seq<nat> {
    Seq::new(n, |i: int| if i < s.len() { s[i] } else { 0 })
}

/// The numbers of a vector of bitmaps.
pub open spec fn bitmap_values(v: Seq<BitMap256>) -> Seq<nat> {
    v.map_values(|b: BitMap256| b.data@)
}

/// The public inputs of a shuffle, in the verifier's order: nonce, the
/// aggregate key, the old deck's x0 and x1, the new deck's x0 and x1, then
/// the four selectors.
pub open spec fn shuffle_public_input_spec(
    enc: CompressedDeck,
    old: CompressedDeck,
    nonce: U256,
    agg_pk_x: U256,
    agg_pk_y: U256,
) -> Seq<U256> {
    seq![nonce, agg_pk_x, agg_pk_y] + old.x0@ + old.x1@ + enc.x0@ + enc.x1@ + seq![
        old.selector0.data,
        old.selector1.data,
        enc.selector0.data,
        enc.selector1.data,
    ]
}

impl Deck {
    /// Every per-card array has the kind's length.
    pub open spec fn wf(&self) -> bool {
        let n = num_cards_of(self.config);
        &&& self.x0@.len() == n
        &&& self.x1@.len() == n
        &&& self.y0@.len() == n
        &&& self.y1@.len() == n
        &&& self.decrypt_record@.len() == n
    }

    /// A fresh deck of the given kind: the unshuffled x1 table, zeros
    /// elsewhere, no decryptions, the kind's selectors.
    pub fn new(config: DeckConfig) -> (r: Deck)
        ensures
            r.wf(),
            r.config == config,
            values(r.x0@) == Seq::new(num_cards_of(config), |i: int| 0nat),
            values(r.y0@) == Seq::new(num_cards_of(config), |i: int| 0nat),
            values(r.y1@) == Seq::new(num_cards_of(config), |i: int| 0nat),
            values(r.x1@) == init_x1().subrange(0, num_cards_of(config) as int),
            bitmap_values(r.decrypt_record@) == Seq::new(num_cards_of(config), |i: int| 0nat),
            r.selector0.data@ == SELECTOR0_BASE >> ((52 - num_cards_of(config)) as u128),
            r.selector1.data@ == SELECTOR1_BASE >> ((52 - num_cards_of(config)) as u128),
            r.cards_to_deal.data@ == 0,
            r.player_to_deal == 0,
    {
        let size = config.num_cards() as usize;
        let mut x0: Vec<U256> = Vec::new();
        let mut x1: Vec<U256> = Vec::new();
        let mut y0: Vec<U256> = Vec::new();
        let mut y1: Vec<U256> = Vec::new();
        let mut decrypt_record: Vec<BitMap256> = Vec::new();
        let mut i: usize = 0;
        while i < size
            invariant
                i <= size == num_cards_of(config) <= 52,
                x0@.len() == i && x1@.len() == i && y0@.len() == i && y1@.len() == i,
                decrypt_record@.len() == i,
                forall|k: int| 0 <= k < i ==> (#[trigger] x0@[k])@ == 0 && y0@[k]@ == 0 && y1@[k]@ == 0,
                forall|k: int| 0 <= k < i ==> (#[trigger] x1@[k])@ == init_x1()[k],
                forall|k: int| 0 <= k < i ==> (#[trigger] decrypt_record@[k]).data@ == 0,
            decreases size - i,
        {
            x0.push(U256::zero());
            x1.push(init_x1_value(i));
            y0.push(U256::zero());
            y1.push(U256::zero());
            decrypt_record.push(BitMap256::zero());
            i = i + 1;
        }
        let r = Deck {
            config,
            x0,
            x1,
            y0,
            y1,
            selector0: selector_for(config.num_cards(), SELECTOR0_BASE),
            selector1: selector_for(config.num_cards(), SELECTOR1_BASE),
            decrypt_record,
            cards_to_deal: BitMap256::zero(),
            player_to_deal: 0,
        };
        proof {
            assert(values(r.x0@) =~= Seq::new(num_cards_of(config), |i: int| 0nat));
            assert(values(r.y0@) =~= Seq::new(num_cards_of(config), |i: int| 0nat));
            assert(values(r.y1@) =~= Seq::new(num_cards_of(config), |i: int| 0nat));
            assert(values(r.x1@) =~= init_x1().subrange(0, num_cards_of(config) as int));
            assert(bitmap_values(r.decrypt_record@) =~= Seq::new(
                num_cards_of(config),
                |i: int| 0nat,
            ));
        }
        r
    }

    /// Number of cards of this deck's kind.
    pub fn size(&self) -> (r: usize)
        ensures
            r == num_cards_of(self.config),
    {
        self.config.num_cards() as usize
    }

    /// The compressed form: kind, x0, x1 and the selectors.
    pub fn compressed(&self) -> (r: CompressedDeck)
        ensures
            r.config == self.config,
            r.x0@ == self.x0@,
            r.x1@ == self.x1@,
            r.selector0 == self.selector0,
            r.selector1 == self.selector1,
    {
        CompressedDeck {
            config: self.config,
            x0: copy_values(&self.x0),
            x1: copy_values(&self.x1),
            selector0: self.selector0,
            selector1: self.selector1,
        }
    }

    /// Takes kind, x0, x1 and selectors from a compressed deck whose arrays
    /// have its kind's length, and cuts or pads y0, y1 and the decryption
    /// records with zeros to that length; refuses any other deck unchanged.
    pub fn set_from_compressed(&mut self, deck: CompressedDeck) -> (r: Result<(), DeckError>)
        ensures
            !deck.len_matches_spec() ==> r == Err::<(), DeckError>(DeckError::LengthMismatch)
                && *final(self) == *old(self),
            deck.len_matches_spec() ==> {
                let n = num_cards_of(deck.config);
                &&& r is Ok
                &&& final(self).config == deck.config
                &&& final(self).x0@ == deck.x0@
                &&& final(self).x1@ == deck.x1@
                &&& final(self).selector0 == deck.selector0
                &&& final(self).selector1 == deck.selector1
                &&& values(final(self).y0@) == resized(values(old(self).y0@), n)
                &&& values(final(self).y1@) == resized(values(old(self).y1@), n)
                &&& bitmap_values(final(self).decrypt_record@) == resized(
                    bitmap_values(old(self).decrypt_record@),
                    n,
                )
                &&& final(self).cards_to_deal == old(self).cards_to_deal
                &&& final(self).player_to_deal == old(self).player_to_deal
                &&& final(self).wf()
            },
    {
        if !deck.len_matches() {
            return Err(DeckError::LengthMismatch);
        }
        let size = deck.config.num_cards() as usize;
        self.config = deck.config;
        self.x0 = deck.x0;
        self.x1 = deck.x1;
        self.selector0 = deck.selector0;
        self.selector1 = deck.selector1;
        resize_values(&mut self.y0, size);
        resize_values(&mut self.y1, size);
        resize_records(&mut self.decrypt_record, size);
        proof {
            assert(values(self.y0@).len() == self.y0@.len());
            assert(values(self.y1@).len() == self.y1@.len());
            assert(bitmap_values(self.decrypt_record@).len() == self.decrypt_record@.len());
        }
        Ok(())
    }
}

/// A copy of the vector.
pub(crate) fn copy_values(v: &Vec<U256>) -> (r: Vec<U256>)
    ensures
        r@ == v@,
{
    let mut r: Vec<U256> = Vec::new();
    let mut i: usize = 0;
    while i < v.len()
        invariant
            i <= v@.len(),
            r@ == v@.subrange(0, i as int),
        decreases v@.len() - i,
    {
        r.push(v[i]);
        i = i + 1;
        proof {
            assert(r@ =~= v@.subrange(0, i as int));
        }
    }
    proof {
        assert(r@ =~= v@);
    }
    r
}

/// Cuts the vector to n entries, or pads it with zeros.
fn resize_values(v: &mut Vec<U256>, n: usize)
    ensures
        values(final(v)@) == resized(values(old(v)@), n as nat),
{
    v.truncate(n);
    while v.len() < n
        invariant
            n >= v@.len(),
            v@.len() == n || v@.len() >= old(v)@.len(),
            forall|k: int|
                0 <= k < v@.len() ==> (#[trigger] v@[k])@ == (if k < old(v)@.len() {
                    old(v)@[k]@
                } else {
                    0
                }),
        decreases n - v@.len(),
    {
        v.push(U256::zero());
    }
    proof {
        assert(values(v@) =~= resized(values(old(v)@), n as nat));
    }
}

/// Cuts the vector to n records, or pads it with empty ones.
fn resize_records(v: &mut Vec<BitMap256>, n: usize)
    ensures
        bitmap_values(final(v)@) == resized(bitmap_values(old(v)@), n as nat),
{
    v.truncate(n);
    while v.len() < n
        invariant
            n >= v@.len(),
            v@.len() == n || v@.len() >= old(v)@.len(),
            forall|k: int|
                0 <= k < v@.len() ==> (#[trigger] v@[k]).data@ == (if k < old(v)@.len() {
                    old(v)@[k].data@
                } else {
                    0
                }),
        decreases n - v@.len(),
    {
        v.push(BitMap256::zero());
    }
    proof {
        assert(bitmap_values(v@) =~= resized(bitmap_values(old(v)@), n as nat));
    }
}

/// Appends all of `src` to `dst`.
fn append_values(dst: &mut Vec<U256>, src: &Vec<U256>)
    ensures
        final(dst)@ == old(dst)@ + src@,
{
    let mut i: usize = 0;
    while i < src.len()
        invariant
            i <= src@.len(),
            dst@ == old(dst)@ + src@.subrange(0, i as int),
        decreases src@.len() - i,
    {
        dst.push(src[i]);
        i = i + 1;
        proof {
            assert(dst@ =~= old(dst)@ + src@.subrange(0, i as int));
        }
    }
    proof {
        assert(src@.subrange(0, src@.len() as int) =~= src@);
    }
}

/// The public inputs of a shuffle from the old deck to the new one; fails
/// when the kinds differ or an array has not the kind's length.
pub fn shuffle_public_input(
    enc: &CompressedDeck,
    old: &CompressedDeck,
    nonce: &U256,
    agg_pk_x: &U256,
    agg_pk_y: &U256,
) -> (r: Result<Vec<U256>, DeckError>)
    ensures
        enc.config != old.config ==> r == Err::<Vec<U256>, DeckError>(DeckError::ConfigMismatch),
        enc.config == old.config && !(enc.len_matches_spec() && old.len_matches_spec()) ==> r
            == Err::<Vec<U256>, DeckError>(DeckError::LengthMismatch),
        enc.config == old.config && enc.len_matches_spec() && old.len_matches_spec() ==> r is Ok
            && r->Ok_0@ == shuffle_public_input_spec(*enc, *old, *nonce, *agg_pk_x, *agg_pk_y),
{
    if enc.config != old.config {
        return Err(DeckError::ConfigMismatch);
    }
    if !enc.len_matches() || !old.len_matches() {
        return Err(DeckError::LengthMismatch);
    }
    let mut input: Vec<U256> = Vec::new();
    input.push(*nonce);
    input.push(*agg_pk_x);
    input.push(*agg_pk_y);
    proof {
        assert(input@ =~= seq![*nonce, *agg_pk_x, *agg_pk_y]);
    }
    append_values(&mut input, &old.x0);
    append_values(&mut input, &old.x1);
    append_values(&mut input, &enc.x0);
    append_values(&mut input, &enc.x1);
    let ghost body = input@;
    input.push(old.selector0.data);
    input.push(old.selector1.data);
    input.push(enc.selector0.data);
    input.push(enc.selector1.data);
    proof {
        assert(input@ =~= body + seq![
            old.selector0.data,
            old.selector1.data,
            enc.selector0.data,
            enc.selector1.data,
        ]);
    }
    Ok(input)
}

/// The public inputs of a deck of N cards are 7 + 4N values.
pub proof fn law_public_input_length(
    enc: CompressedDeck,
    old: CompressedDeck,
    nonce: U256,
    agg_pk_x: U256,
    agg_pk_y: U256,
)
    requires
        enc.config == old.config,
        enc.len_matches_spec(),
        old.len_matches_spec(),
    ensures
        shuffle_public_input_spec(enc, old, nonce, agg_pk_x, agg_pk_y).len() == 7 + 4
            * num_cards_of(enc.config),
{
}

} // verus!
