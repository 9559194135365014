//! The key-name vocabulary of the script grammar: canonical evdev key names,
//! the code each stands for, and lookup in both directions.

use vstd::prelude::*;
use crate::keys::{Key, EV_KEY};

verus! {

/// The canonical table: (code, canonical name). Every name is upper case,
/// at least two characters long, and made of name characters only, and the
/// names are pairwise distinct; `key_table_is_wf` checks this.
pub const KEY_DEF_COUNT: usize = 266;

/// The table entry at a given index.
pub open spec fn key_def_spec(i: int) -> (u16, Seq<char>) {
    if i == 0 { (1u16, "KEY_ESC"@) }
    else if i == 1 { (2u16, "KEY_1"@) }
    else if i == 2 { (3u16, "KEY_2"@) }
    else if i == 3 { (4u16, "KEY_3"@) }
    else if i == 4 { (5u16, "KEY_4"@) }
    else if i == 5 { (6u16, "KEY_5"@) }
    else if i == 6 { (7u16, "KEY_6"@) }
    else if i == 7 { (8u16, "KEY_7"@) }
    else if i == 8 { (9u16, "KEY_8"@) }
    else if i == 9 { (10u16, "KEY_9"@) }
    else if i == 10 { (11u16, "KEY_0"@) }
    else if i == 11 { (12u16, "KEY_MINUS"@) }
    else if i == 12 { (13u16, "KEY_EQUAL"@) }
    else if i == 13 { (14u16, "KEY_BACKSPACE"@) }
    else if i == 14 { (15u16, "KEY_TAB"@) }
    else if i == 15 { (16u16, "KEY_Q"@) }
    else if i == 16 { (17u16, "KEY_W"@) }
    else if i == 17 { (18u16, "KEY_E"@) }
    else if i == 18 { (19u16, "KEY_R"@) }
    else if i == 19 { (20u16, "KEY_T"@) }
    else if i == 20 { (21u16, "KEY_Y"@) }
    else if i == 21 { (22u16, "KEY_U"@) }
    else if i == 22 { (23u16, "KEY_I"@) }
    else if i == 23 { (24u16, "KEY_O"@) }
    else if i == 24 { (25u16, "KEY_P"@) }
    else if i == 25 { (26u16, "KEY_LEFTBRACE"@) }
    else if i == 26 { (27u16, "KEY_RIGHTBRACE"@) }
    else if i == 27 { (28u16, "KEY_ENTER"@) }
    else if i == 28 { (29u16, "KEY_LEFTCTRL"@) }
    else if i == 29 { (30u16, "KEY_A"@) }
    else if i == 30 { (31u16, "KEY_S"@) }
    else if i == 31 { (32u16, "KEY_D"@) }
    else if i == 32 { (33u16, "KEY_F"@) }
    else if i == 33 { (34u16, "KEY_G"@) }
    else if i == 34 { (35u16, "KEY_H"@) }
    else if i == 35 { (36u16, "KEY_J"@) }
    else if i == 36 { (37u16, "KEY_K"@) }
    else if i == 37 { (38u16, "KEY_L"@) }
    else if i == 38 { (39u16, "KEY_SEMICOLON"@) }
    else if i == 39 { (40u16, "KEY_APOSTROPHE"@) }
    else if i == 40 { (41u16, "KEY_GRAVE"@) }
    else if i == 41 { (42u16, "KEY_LEFTSHIFT"@) }
    else if i == 42 { (43u16, "KEY_BACKSLASH"@) }
    else if i == 43 { (44u16, "KEY_Z"@) }
    else if i == 44 { (45u16, "KEY_X"@) }
    else if i == 45 { (46u16, "KEY_C"@) }
    else if i == 46 { (47u16, "KEY_V"@) }
    else if i == 47 { (48u16, "KEY_B"@) }
    else if i == 48 { (49u16, "KEY_N"@) }
    else if i == 49 { (50u16, "KEY_M"@) }
    else if i == 50 { (51u16, "KEY_COMMA"@) }
    else if i == 51 { (52u16, "KEY_DOT"@) }
    else if i == 52 { (53u16, "KEY_SLASH"@) }
    else if i == 53 { (54u16, "KEY_RIGHTSHIFT"@) }
    else if i == 54 { (55u16, "KEY_KPASTERISK"@) }
    else if i == 55 { (56u16, "KEY_LEFTALT"@) }
    else if i == 56 { (57u16, "KEY_SPACE"@) }
    else if i == 57 { (58u16, "KEY_CAPSLOCK"@) }
    else if i == 58 { (59u16, "KEY_F1"@) }
    else if i == 59 { (60u16, "KEY_F2"@) }
    else if i == 60 { (61u16, "KEY_F3"@) }
    else if i == 61 { (62u16, "KEY_F4"@) }
    else if i == 62 { (63u16, "KEY_F5"@) }
    else if i == 63 { (64u16, "KEY_F6"@) }
    else if i == 64 { (65u16, "KEY_F7"@) }
    else if i == 65 { (66u16, "KEY_F8"@) }
    else if i == 66 { (67u16, "KEY_F9"@) }
    else if i == 67 { (68u16, "KEY_F10"@) }
    else if i == 68 { (69u16, "KEY_NUMLOCK"@) }
    else if i == 69 { (70u16, "KEY_SCROLLLOCK"@) }
    else if i == 70 { (71u16, "KEY_KP7"@) }
    else if i == 71 { (72u16, "KEY_KP8"@) }
    else if i == 72 { (73u16, "KEY_KP9"@) }
    else if i == 73 { (74u16, "KEY_KPMINUS"@) }
    else if i == 74 { (75u16, "KEY_KP4"@) }
    else if i == 75 { (76u16, "KEY_KP5"@) }
    else if i == 76 { (77u16, "KEY_KP6"@) }
    else if i == 77 { (78u16, "KEY_KPPLUS"@) }
    else if i == 78 { (79u16, "KEY_KP1"@) }
    else if i == 79 { (80u16, "KEY_KP2"@) }
    else if i == 80 { (81u16, "KEY_KP3"@) }
    else if i == 81 { (82u16, "KEY_KP0"@) }
    else if i == 82 { (83u16, "KEY_KPDOT"@) }
    else if i == 83 { (85u16, "KEY_ZENKAKUHANKAKU"@) }
    else if i == 84 { (86u16, "KEY_102ND"@) }
    else if i == 85 { (87u16, "KEY_F11"@) }
    else if i == 86 { (88u16, "KEY_F12"@) }
    else if i == 87 { (89u16, "KEY_RO"@) }
    else if i == 88 { (90u16, "KEY_KATAKANA"@) }
    else if i == 89 { (91u16, "KEY_HIRAGANA"@) }
    else if i == 90 { (92u16, "KEY_HENKAN"@) }
    else if i == 91 { (93u16, "KEY_KATAKANAHIRAGANA"@) }
    else if i == 92 { (94u16, "KEY_MUHENKAN"@) }
    else if i == 93 { (95u16, "KEY_KPJPCOMMA"@) }
    else if i == 94 { (96u16, "KEY_KPENTER"@) }
    else if i == 95 { (97u16, "KEY_RIGHTCTRL"@) }
    else if i == 96 { (98u16, "KEY_KPSLASH"@) }
    else if i == 97 { (99u16, "KEY_SYSRQ"@) }
    else if i == 98 { (100u16, "KEY_RIGHTALT"@) }
    else if i == 99 { (101u16, "KEY_LINEFEED"@) }
    else if i == 100 { (102u16, "KEY_HOME"@) }
    else if i == 101 { (103u16, "KEY_UP"@) }
    else if i == 102 { (104u16, "KEY_PAGEUP"@) }
    else if i == 103 { (105u16, "KEY_LEFT"@) }
    else if i == 104 { (106u16, "KEY_RIGHT"@) }
    else if i == 105 { (107u16, "KEY_END"@) }
    else if i == 106 { (108u16, "KEY_DOWN"@) }
    else if i == 107 { (109u16, "KEY_PAGEDOWN"@) }
    else if i == 108 { (110u16, "KEY_INSERT"@) }
    else if i == 109 { (111u16, "KEY_DELETE"@) }
    else if i == 110 { (112u16, "KEY_MACRO"@) }
    else if i == 111 { (113u16, "KEY_MUTE"@) }
    else if i == 112 { (114u16, "KEY_VOLUMEDOWN"@) }
    else if i == 113 { (115u16, "KEY_VOLUMEUP"@) }
    else if i == 114 { (116u16, "KEY_POWER"@) }
    else if i == 115 { (117u16, "KEY_KPEQUAL"@) }
    else if i == 116 { (118u16, "KEY_KPPLUSMINUS"@) }
    else if i == 117 { (119u16, "KEY_PAUSE"@) }
    else if i == 118 { (120u16, "KEY_SCALE"@) }
    else if i == 119 { (121u16, "KEY_KPCOMMA"@) }
    else if i == 120 { (122u16, "KEY_HANGEUL"@) }
    else if i == 121 { (123u16, "KEY_HANJA"@) }
    else if i == 122 { (124u16, "KEY_YEN"@) }
    else if i == 123 { (125u16, "KEY_LEFTMETA"@) }
    else if i == 124 { (126u16, "KEY_RIGHTMETA"@) }
    else if i == 125 { (127u16, "KEY_COMPOSE"@) }
    else if i == 126 { (128u16, "KEY_STOP"@) }
    else if i == 127 { (129u16, "KEY_AGAIN"@) }
    else if i == 128 { (130u16, "KEY_PROPS"@) }
    else if i == 129 { (131u16, "KEY_UNDO"@) }
    else if i == 130 { (132u16, "KEY_FRONT"@) }
    else if i == 131 { (133u16, "KEY_COPY"@) }
    else if i == 132 { (134u16, "KEY_OPEN"@) }
    else if i == 133 { (135u16, "KEY_PASTE"@) }
    else if i == 134 { (136u16, "KEY_FIND"@) }
    else if i == 135 { (137u16, "KEY_CUT"@) }
    else if i == 136 { (138u16, "KEY_HELP"@) }
    else if i == 137 { (139u16, "KEY_MENU"@) }
    else if i == 138 { (140u16, "KEY_CALC"@) }
    else if i == 139 { (141u16, "KEY_SETUP"@) }
    else if i == 140 { (142u16, "KEY_SLEEP"@) }
    else if i == 141 { (143u16, "KEY_WAKEUP"@) }
    else if i == 142 { (144u16, "KEY_FILE"@) }
    else if i == 143 { (145u16, "KEY_SENDFILE"@) }
    else if i == 144 { (146u16, "KEY_DELETEFILE"@) }
    else if i == 145 { (147u16, "KEY_XFER"@) }
    else if i == 146 { (148u16, "KEY_PROG1"@) }
    else if i == 147 { (149u16, "KEY_PROG2"@) }
    else if i == 148 { (150u16, "KEY_WWW"@) }
    else if i == 149 { (151u16, "KEY_MSDOS"@) }
    else if i == 150 { (152u16, "KEY_COFFEE"@) }
    else if i == 151 { (153u16, "KEY_ROTATE_DISPLAY"@) }
    else if i == 152 { (154u16, "KEY_CYCLEWINDOWS"@) }
    else if i == 153 { (155u16, "KEY_MAIL"@) }
    else if i == 154 { (156u16, "KEY_BOOKMARKS"@) }
    else if i == 155 { (157u16, "KEY_COMPUTER"@) }
    else if i == 156 { (158u16, "KEY_BACK"@) }
    else if i == 157 { (159u16, "KEY_FORWARD"@) }
    else if i == 158 { (160u16, "KEY_CLOSECD"@) }
    else if i == 159 { (161u16, "KEY_EJECTCD"@) }
    else if i == 160 { (162u16, "KEY_EJECTCLOSECD"@) }
    else if i == 161 { (163u16, "KEY_NEXTSONG"@) }
    else if i == 162 { (164u16, "KEY_PLAYPAUSE"@) }
    else if i == 163 { (165u16, "KEY_PREVIOUSSONG"@) }
    else if i == 164 { (166u16, "KEY_STOPCD"@) }
    else if i == 165 { (167u16, "KEY_RECORD"@) }
    else if i == 166 { (168u16, "KEY_REWIND"@) }
    else if i == 167 { (169u16, "KEY_PHONE"@) }
    else if i == 168 { (170u16, "KEY_ISO"@) }
    else if i == 169 { (171u16, "KEY_CONFIG"@) }
    else if i == 170 { (172u16, "KEY_HOMEPAGE"@) }
    else if i == 171 { (173u16, "KEY_REFRESH"@) }
    else if i == 172 { (174u16, "KEY_EXIT"@) }
    else if i == 173 { (175u16, "KEY_MOVE"@) }
    else if i == 174 { (176u16, "KEY_EDIT"@) }
    else if i == 175 { (177u16, "KEY_SCROLLUP"@) }
    else if i == 176 { (178u16, "KEY_SCROLLDOWN"@) }
    else if i == 177 { (179u16, "KEY_KPLEFTPAREN"@) }
    else if i == 178 { (180u16, "KEY_KPRIGHTPAREN"@) }
    else if i == 179 { (181u16, "KEY_NEW"@) }
    else if i == 180 { (182u16, "KEY_REDO"@) }
    else if i == 181 { (183u16, "KEY_F13"@) }
    else if i == 182 { (184u16, "KEY_F14"@) }
    else if i == 183 { (185u16, "KEY_F15"@) }
    else if i == 184 { (186u16, "KEY_F16"@) }
    else if i == 185 { (187u16, "KEY_F17"@) }
    else if i == 186 { (188u16, "KEY_F18"@) }
    else if i == 187 { (189u16, "KEY_F19"@) }
    else if i == 188 { (190u16, "KEY_F20"@) }
    else if i == 189 { (191u16, "KEY_F21"@) }
    else if i == 190 { (192u16, "KEY_F22"@) }
    else if i == 191 { (193u16, "KEY_F23"@) }
    else if i == 192 { (194u16, "KEY_F24"@) }
    else if i == 193 { (200u16, "KEY_PLAYCD"@) }
    else if i == 194 { (201u16, "KEY_PAUSECD"@) }
    else if i == 195 { (202u16, "KEY_PROG3"@) }
    else if i == 196 { (203u16, "KEY_PROG4"@) }
    else if i == 197 { (205u16, "KEY_SUSPEND"@) }
    else if i == 198 { (206u16, "KEY_CLOSE"@) }
    else if i == 199 { (207u16, "KEY_PLAY"@) }
    else if i == 200 { (208u16, "KEY_FASTFORWARD"@) }
    else if i == 201 { (209u16, "KEY_BASSBOOST"@) }
    else if i == 202 { (210u16, "KEY_PRINT"@) }
    else if i == 203 { (211u16, "KEY_HP"@) }
    else if i == 204 { (212u16, "KEY_CAMERA"@) }
    else if i == 205 { (213u16, "KEY_SOUND"@) }
    else if i == 206 { (214u16, "KEY_QUESTION"@) }
    else if i == 207 { (215u16, "KEY_EMAIL"@) }
    else if i == 208 { (216u16, "KEY_CHAT"@) }
    else if i == 209 { (217u16, "KEY_SEARCH"@) }
    else if i == 210 { (218u16, "KEY_CONNECT"@) }
    else if i == 211 { (219u16, "KEY_FINANCE"@) }
    else if i == 212 { (220u16, "KEY_SPORT"@) }
    else if i == 213 { (221u16, "KEY_SHOP"@) }
    else if i == 214 { (223u16, "KEY_CANCEL"@) }
    else if i == 215 { (224u16, "KEY_BRIGHTNESSDOWN"@) }
    else if i == 216 { (225u16, "KEY_BRIGHTNESSUP"@) }
    else if i == 217 { (226u16, "KEY_MEDIA"@) }
    else if i == 218 { (256u16, "BTN_0"@) }
    else if i == 219 { (257u16, "BTN_1"@) }
    else if i == 220 { (258u16, "BTN_2"@) }
    else if i == 221 { (259u16, "BTN_3"@) }
    else if i == 222 { (260u16, "BTN_4"@) }
    else if i == 223 { (261u16, "BTN_5"@) }
    else if i == 224 { (262u16, "BTN_6"@) }
    else if i == 225 { (263u16, "BTN_7"@) }
    else if i == 226 { (264u16, "BTN_8"@) }
    else if i == 227 { (265u16, "BTN_9"@) }
    else if i == 228 { (272u16, "BTN_LEFT"@) }
    else if i == 229 { (273u16, "BTN_RIGHT"@) }
    else if i == 230 { (274u16, "BTN_MIDDLE"@) }
    else if i == 231 { (275u16, "BTN_SIDE"@) }
    else if i == 232 { (276u16, "BTN_EXTRA"@) }
    else if i == 233 { (277u16, "BTN_FORWARD"@) }
    else if i == 234 { (278u16, "BTN_BACK"@) }
    else if i == 235 { (279u16, "BTN_TASK"@) }
    else if i == 236 { (288u16, "BTN_TRIGGER"@) }
    else if i == 237 { (289u16, "BTN_THUMB"@) }
    else if i == 238 { (290u16, "BTN_THUMB2"@) }
    else if i == 239 { (291u16, "BTN_TOP"@) }
    else if i == 240 { (292u16, "BTN_TOP2"@) }
    else if i == 241 { (293u16, "BTN_PINKIE"@) }
    else if i == 242 { (294u16, "BTN_BASE"@) }
    else if i == 243 { (295u16, "BTN_BASE2"@) }
    else if i == 244 { (296u16, "BTN_BASE3"@) }
    else if i == 245 { (297u16, "BTN_BASE4"@) }
    else if i == 246 { (298u16, "BTN_BASE5"@) }
    else if i == 247 { (299u16, "BTN_BASE6"@) }
    else if i == 248 { (304u16, "BTN_SOUTH"@) }
    else if i == 249 { (305u16, "BTN_EAST"@) }
    else if i == 250 { (306u16, "BTN_C"@) }
    else if i == 251 { (307u16, "BTN_NORTH"@) }
    else if i == 252 { (308u16, "BTN_WEST"@) }
    else if i == 253 { (309u16, "BTN_Z"@) }
    else if i == 254 { (310u16, "BTN_TL"@) }
    else if i == 255 { (311u16, "BTN_TR"@) }
    else if i == 256 { (312u16, "BTN_TL2"@) }
    else if i == 257 { (313u16, "BTN_TR2"@) }
    else if i == 258 { (314u16, "BTN_SELECT"@) }
    else if i == 259 { (315u16, "BTN_START"@) }
    else if i == 260 { (316u16, "BTN_MODE"@) }
    else if i == 261 { (317u16, "BTN_THUMBL"@) }
    else if i == 262 { (318u16, "BTN_THUMBR"@) }
    else if i == 263 { (330u16, "BTN_TOUCH"@) }
    else if i == 264 { (331u16, "BTN_STYLUS"@) }
    else { (332u16, "BTN_STYLUS2"@) }
}

pub fn key_def_at(i: usize) -> (r: (u16, &'static str))
    requires
        i < KEY_DEF_COUNT,
    ensures
        r.0 == key_defs()[i as int].0,
        r.1@ == key_defs()[i as int].1,
{
    if i == 0 { (1, "KEY_ESC") }
    else if i == 1 { (2, "KEY_1") }
    else if i == 2 { (3, "KEY_2") }
    else if i == 3 { (4, "KEY_3") }
    else if i == 4 { (5, "KEY_4") }
    else if i == 5 { (6, "KEY_5") }
    else if i == 6 { (7, "KEY_6") }
    else if i == 7 { (8, "KEY_7") }
    else if i == 8 { (9, "KEY_8") }
    else if i == 9 { (10, "KEY_9") }
    else if i == 10 { (11, "KEY_0") }
    else if i == 11 { (12, "KEY_MINUS") }
    else if i == 12 { (13, "KEY_EQUAL") }
    else if i == 13 { (14, "KEY_BACKSPACE") }
    else if i == 14 { (15, "KEY_TAB") }
    else if i == 15 { (16, "KEY_Q") }
    else if i == 16 { (17, "KEY_W") }
    else if i == 17 { (18, "KEY_E") }
    else if i == 18 { (19, "KEY_R") }
    else if i == 19 { (20, "KEY_T") }
    else if i == 20 { (21, "KEY_Y") }
    else if i == 21 { (22, "KEY_U") }
    else if i == 22 { (23, "KEY_I") }
    else if i == 23 { (24, "KEY_O") }
    else if i == 24 { (25, "KEY_P") }
    else if i == 25 { (26, "KEY_LEFTBRACE") }
    else if i == 26 { (27, "KEY_RIGHTBRACE") }
    else if i == 27 { (28, "KEY_ENTER") }
    else if i == 28 { (29, "KEY_LEFTCTRL") }
    else if i == 29 { (30, "KEY_A") }
    else if i == 30 { (31, "KEY_S") }
    else if i == 31 { (32, "KEY_D") }
    else if i == 32 { (33, "KEY_F") }
    else if i == 33 { (34, "KEY_G") }
    else if i == 34 { (35, "KEY_H") }
    else if i == 35 { (36, "KEY_J") }
    else if i == 36 { (37, "KEY_K") }
    else if i == 37 { (38, "KEY_L") }
    else if i == 38 { (39, "KEY_SEMICOLON") }
    else if i == 39 { (40, "KEY_APOSTROPHE") }
    else if i == 40 { (41, "KEY_GRAVE") }
    else if i == 41 { (42, "KEY_LEFTSHIFT") }
    else if i == 42 { (43, "KEY_BACKSLASH") }
    else if i == 43 { (44, "KEY_Z") }
    else if i == 44 { (45, "KEY_X") }
    else if i == 45 { (46, "KEY_C") }
    else if i == 46 { (47, "KEY_V") }
    else if i == 47 { (48, "KEY_B") }
    else if i == 48 { (49, "KEY_N") }
    else if i == 49 { (50, "KEY_M") }
    else if i == 50 { (51, "KEY_COMMA") }
    else if i == 51 { (52, "KEY_DOT") }
    else if i == 52 { (53, "KEY_SLASH") }
    else if i == 53 { (54, "KEY_RIGHTSHIFT") }
    else if i == 54 { (55, "KEY_KPASTERISK") }
    else if i == 55 { (56, "KEY_LEFTALT") }
    else if i == 56 { (57, "KEY_SPACE") }
    else if i == 57 { (58, "KEY_CAPSLOCK") }
    else if i == 58 { (59, "KEY_F1") }
    else if i == 59 { (60, "KEY_F2") }
    else if i == 60 { (61, "KEY_F3") }
    else if i == 61 { (62, "KEY_F4") }
    else if i == 62 { (63, "KEY_F5") }
    else if i == 63 { (64, "KEY_F6") }
    else if i == 64 { (65, "KEY_F7") }
    else if i == 65 { (66, "KEY_F8") }
    else if i == 66 { (67, "KEY_F9") }
    else if i == 67 { (68, "KEY_F10") }
    else if i == 68 { (69, "KEY_NUMLOCK") }
    else if i == 69 { (70, "KEY_SCROLLLOCK") }
    else if i == 70 { (71, "KEY_KP7") }
    else if i == 71 { (72, "KEY_KP8") }
    else if i == 72 { (73, "KEY_KP9") }
    else if i == 73 { (74, "KEY_KPMINUS") }
    else if i == 74 { (75, "KEY_KP4") }
    else if i == 75 { (76, "KEY_KP5") }
    else if i == 76 { (77, "KEY_KP6") }
    else if i == 77 { (78, "KEY_KPPLUS") }
    else if i == 78 { (79, "KEY_KP1") }
    else if i == 79 { (80, "KEY_KP2") }
    else if i == 80 { (81, "KEY_KP3") }
    else if i == 81 { (82, "KEY_KP0") }
    else if i == 82 { (83, "KEY_KPDOT") }
    else if i == 83 { (85, "KEY_ZENKAKUHANKAKU") }
    else if i == 84 { (86, "KEY_102ND") }
    else if i == 85 { (87, "KEY_F11") }
    else if i == 86 { (88, "KEY_F12") }
    else if i == 87 { (89, "KEY_RO") }
    else if i == 88 { (90, "KEY_KATAKANA") }
    else if i == 89 { (91, "KEY_HIRAGANA") }
    else if i == 90 { (92, "KEY_HENKAN") }
    else if i == 91 { (93, "KEY_KATAKANAHIRAGANA") }
    else if i == 92 { (94, "KEY_MUHENKAN") }
    else if i == 93 { (95, "KEY_KPJPCOMMA") }
    else if i == 94 { (96, "KEY_KPENTER") }
    else if i == 95 { (97, "KEY_RIGHTCTRL") }
    else if i == 96 { (98, "KEY_KPSLASH") }
    else if i == 97 { (99, "KEY_SYSRQ") }
    else if i == 98 { (100, "KEY_RIGHTALT") }
    else if i == 99 { (101, "KEY_LINEFEED") }
    else if i == 100 { (102, "KEY_HOME") }
    else if i == 101 { (103, "KEY_UP") }
    else if i == 102 { (104, "KEY_PAGEUP") }
    else if i == 103 { (105, "KEY_LEFT") }
    else if i == 104 { (106, "KEY_RIGHT") }
    else if i == 105 { (107, "KEY_END") }
    else if i == 106 { (108, "KEY_DOWN") }
    else if i == 107 { (109, "KEY_PAGEDOWN") }
    else if i == 108 { (110, "KEY_INSERT") }
    else if i == 109 { (111, "KEY_DELETE") }
    else if i == 110 { (112, "KEY_MACRO") }
    else if i == 111 { (113, "KEY_MUTE") }
    else if i == 112 { (114, "KEY_VOLUMEDOWN") }
    else if i == 113 { (115, "KEY_VOLUMEUP") }
    else if i == 114 { (116, "KEY_POWER") }
    else if i == 115 { (117, "KEY_KPEQUAL") }
    else if i == 116 { (118, "KEY_KPPLUSMINUS") }
    else if i == 117 { (119, "KEY_PAUSE") }
    else if i == 118 { (120, "KEY_SCALE") }
    else if i == 119 { (121, "KEY_KPCOMMA") }
    else if i == 120 { (122, "KEY_HANGEUL") }
    else if i == 121 { (123, "KEY_HANJA") }
    else if i == 122 { (124, "KEY_YEN") }
    else if i == 123 { (125, "KEY_LEFTMETA") }
    else if i == 124 { (126, "KEY_RIGHTMETA") }
    else if i == 125 { (127, "KEY_COMPOSE") }
    else if i == 126 { (128, "KEY_STOP") }
    else if i == 127 { (129, "KEY_AGAIN") }
    else if i == 128 { (130, "KEY_PROPS") }
    else if i == 129 { (131, "KEY_UNDO") }
    else if i == 130 { (132, "KEY_FRONT") }
    else if i == 131 { (133, "KEY_COPY") }
    else if i == 132 { (134, "KEY_OPEN") }
    else if i == 133 { (135, "KEY_PASTE") }
    else if i == 134 { (136, "KEY_FIND") }
    else if i == 135 { (137, "KEY_CUT") }
    else if i == 136 { (138, "KEY_HELP") }
    else if i == 137 { (139, "KEY_MENU") }
    else if i == 138 { (140, "KEY_CALC") }
    else if i == 139 { (141, "KEY_SETUP") }
    else if i == 140 { (142, "KEY_SLEEP") }
    else if i == 141 { (143, "KEY_WAKEUP") }
    else if i == 142 { (144, "KEY_FILE") }
    else if i == 143 { (145, "KEY_SENDFILE") }
    else if i == 144 { (146, "KEY_DELETEFILE") }
    else if i == 145 { (147, "KEY_XFER") }
    else if i == 146 { (148, "KEY_PROG1") }
    else if i == 147 { (149, "KEY_PROG2") }
    else if i == 148 { (150, "KEY_WWW") }
    else if i == 149 { (151, "KEY_MSDOS") }
    else if i == 150 { (152, "KEY_COFFEE") }
    else if i == 151 { (153, "KEY_ROTATE_DISPLAY") }
    else if i == 152 { (154, "KEY_CYCLEWINDOWS") }
    else if i == 153 { (155, "KEY_MAIL") }
    else if i == 154 { (156, "KEY_BOOKMARKS") }
    else if i == 155 { (157, "KEY_COMPUTER") }
    else if i == 156 { (158, "KEY_BACK") }
    else if i == 157 { (159, "KEY_FORWARD") }
    else if i == 158 { (160, "KEY_CLOSECD") }
    else if i == 159 { (161, "KEY_EJECTCD") }
    else if i == 160 { (162, "KEY_EJECTCLOSECD") }
    else if i == 161 { (163, "KEY_NEXTSONG") }
    else if i == 162 { (164, "KEY_PLAYPAUSE") }
    else if i == 163 { (165, "KEY_PREVIOUSSONG") }
    else if i == 164 { (166, "KEY_STOPCD") }
    else if i == 165 { (167, "KEY_RECORD") }
    else if i == 166 { (168, "KEY_REWIND") }
    else if i == 167 { (169, "KEY_PHONE") }
    else if i == 168 { (170, "KEY_ISO") }
    else if i == 169 { (171, "KEY_CONFIG") }
    else if i == 170 { (172, "KEY_HOMEPAGE") }
    else if i == 171 { (173, "KEY_REFRESH") }
    else if i == 172 { (174, "KEY_EXIT") }
    else if i == 173 { (175, "KEY_MOVE") }
    else if i == 174 { (176, "KEY_EDIT") }
    else if i == 175 { (177, "KEY_SCROLLUP") }
    else if i == 176 { (178, "KEY_SCROLLDOWN") }
    else if i == 177 { (179, "KEY_KPLEFTPAREN") }
    else if i == 178 { (180, "KEY_KPRIGHTPAREN") }
    else if i == 179 { (181, "KEY_NEW") }
    else if i == 180 { (182, "KEY_REDO") }
    else if i == 181 { (183, "KEY_F13") }
    else if i == 182 { (184, "KEY_F14") }
    else if i == 183 { (185, "KEY_F15") }
    else if i == 184 { (186, "KEY_F16") }
    else if i == 185 { (187, "KEY_F17") }
    else if i == 186 { (188, "KEY_F18") }
    else if i == 187 { (189, "KEY_F19") }
    else if i == 188 { (190, "KEY_F20") }
    else if i == 189 { (191, "KEY_F21") }
    else if i == 190 { (192, "KEY_F22") }
    else if i == 191 { (193, "KEY_F23") }
    else if i == 192 { (194, "KEY_F24") }
    else if i == 193 { (200, "KEY_PLAYCD") }
    else if i == 194 { (201, "KEY_PAUSECD") }
    else if i == 195 { (202, "KEY_PROG3") }
    else if i == 196 { (203, "KEY_PROG4") }
    else if i == 197 { (205, "KEY_SUSPEND") }
    else if i == 198 { (206, "KEY_CLOSE") }
    else if i == 199 { (207, "KEY_PLAY") }
    else if i == 200 { (208, "KEY_FASTFORWARD") }
    else if i == 201 { (209, "KEY_BASSBOOST") }
    else if i == 202 { (210, "KEY_PRINT") }
    else if i == 203 { (211, "KEY_HP") }
    else if i == 204 { (212, "KEY_CAMERA") }
    else if i == 205 { (213, "KEY_SOUND") }
    else if i == 206 { (214, "KEY_QUESTION") }
    else if i == 207 { (215, "KEY_EMAIL") }
    else if i == 208 { (216, "KEY_CHAT") }
    else if i == 209 { (217, "KEY_SEARCH") }
    else if i == 210 { (218, "KEY_CONNECT") }
    else if i == 211 { (219, "KEY_FINANCE") }
    else if i == 212 { (220, "KEY_SPORT") }
    else if i == 213 { (221, "KEY_SHOP") }
    else if i == 214 { (223, "KEY_CANCEL") }
    else if i == 215 { (224, "KEY_BRIGHTNESSDOWN") }
    else if i == 216 { (225, "KEY_BRIGHTNESSUP") }
    else if i == 217 { (226, "KEY_MEDIA") }
    else if i == 218 { (256, "BTN_0") }
    else if i == 219 { (257, "BTN_1") }
    else if i == 220 { (258, "BTN_2") }
    else if i == 221 { (259, "BTN_3") }
    else if i == 222 { (260, "BTN_4") }
    else if i == 223 { (261, "BTN_5") }
    else if i == 224 { (262, "BTN_6") }
    else if i == 225 { (263, "BTN_7") }
    else if i == 226 { (264, "BTN_8") }
    else if i == 227 { (265, "BTN_9") }
    else if i == 228 { (272, "BTN_LEFT") }
    else if i == 229 { (273, "BTN_RIGHT") }
    else if i == 230 { (274, "BTN_MIDDLE") }
    else if i == 231 { (275, "BTN_SIDE") }
    else if i == 232 { (276, "BTN_EXTRA") }
    else if i == 233 { (277, "BTN_FORWARD") }
    else if i == 234 { (278, "BTN_BACK") }
    else if i == 235 { (279, "BTN_TASK") }
    else if i == 236 { (288, "BTN_TRIGGER") }
    else if i == 237 { (289, "BTN_THUMB") }
    else if i == 238 { (290, "BTN_THUMB2") }
    else if i == 239 { (291, "BTN_TOP") }
    else if i == 240 { (292, "BTN_TOP2") }
    else if i == 241 { (293, "BTN_PINKIE") }
    else if i == 242 { (294, "BTN_BASE") }
    else if i == 243 { (295, "BTN_BASE2") }
    else if i == 244 { (296, "BTN_BASE3") }
    else if i == 245 { (297, "BTN_BASE4") }
    else if i == 246 { (298, "BTN_BASE5") }
    else if i == 247 { (299, "BTN_BASE6") }
    else if i == 248 { (304, "BTN_SOUTH") }
    else if i == 249 { (305, "BTN_EAST") }
    else if i == 250 { (306, "BTN_C") }
    else if i == 251 { (307, "BTN_NORTH") }
    else if i == 252 { (308, "BTN_WEST") }
    else if i == 253 { (309, "BTN_Z") }
    else if i == 254 { (310, "BTN_TL") }
    else if i == 255 { (311, "BTN_TR") }
    else if i == 256 { (312, "BTN_TL2") }
    else if i == 257 { (313, "BTN_TR2") }
    else if i == 258 { (314, "BTN_SELECT") }
    else if i == 259 { (315, "BTN_START") }
    else if i == 260 { (316, "BTN_MODE") }
    else if i == 261 { (317, "BTN_THUMBL") }
    else if i == 262 { (318, "BTN_THUMBR") }
    else if i == 263 { (330, "BTN_TOUCH") }
    else if i == 264 { (331, "BTN_STYLUS") }
    else { (332, "BTN_STYLUS2") }
}

pub open spec fn key_defs() -> Seq<(u16, Seq<char>)> {
    Seq::new(KEY_DEF_COUNT as nat, |i: int| key_def_spec(i))
}


/// The code of the first table entry carrying the given name.
pub open spec fn lookup_code(defs: Seq<(u16, Seq<char>)>, name: Seq<char>) -> Option<u16>
    decreases defs.len(),
{
    if defs.len() == 0 {
        None
    } else if defs[0].1 == name {
        Some(defs[0].0)
    } else {
        lookup_code(defs.drop_first(), name)
    }
}

/// The name of the first table entry carrying the given code.
pub open spec fn lookup_name(defs: Seq<(u16, Seq<char>)>, code: u16) -> Option<Seq<char>>
    decreases defs.len(),
{
    if defs.len() == 0 {
        None
    } else if defs[0].0 == code {
        Some(defs[0].1)
    } else {
        lookup_name(defs.drop_first(), code)
    }
}

/// Upper-casing of the ASCII letters; everything else is left alone.
pub open spec fn spec_to_upper(c: char) -> char {
    match c {
        'a' => 'A', 'b' => 'B', 'c' => 'C', 'd' => 'D', 'e' => 'E', 'f' => 'F',
        'g' => 'G', 'h' => 'H', 'i' => 'I', 'j' => 'J', 'k' => 'K', 'l' => 'L',
        'm' => 'M', 'n' => 'N', 'o' => 'O', 'p' => 'P', 'q' => 'Q', 'r' => 'R',
        's' => 'S', 't' => 'T', 'u' => 'U', 'v' => 'V', 'w' => 'W', 'x' => 'X',
        'y' => 'Y', 'z' => 'Z',
        _ => c,
    }
}

#[verifier::when_used_as_spec(spec_to_upper)]
pub fn to_upper(c: char) -> (r: char)
    ensures
        r == spec_to_upper(c),
{
    match c {
        'a' => 'A', 'b' => 'B', 'c' => 'C', 'd' => 'D', 'e' => 'E', 'f' => 'F',
        'g' => 'G', 'h' => 'H', 'i' => 'I', 'j' => 'J', 'k' => 'K', 'l' => 'L',
        'm' => 'M', 'n' => 'N', 'o' => 'O', 'p' => 'P', 'q' => 'Q', 'r' => 'R',
        's' => 'S', 't' => 'T', 'u' => 'U', 'v' => 'V', 'w' => 'W', 'x' => 'X',
        'y' => 'Y', 'z' => 'Z',
        c2 => c2,
    }
}

pub open spec fn upper_chars(s: Seq<char>) -> Seq<char> {
    s.map_values(|c: char| spec_to_upper(c))
}

/// A character a key name may be made of.
pub open spec fn spec_is_name_char(c: char) -> bool {
    ('a' <= c && c <= 'z') || ('A' <= c && c <= 'Z') || ('0' <= c && c <= '9') || c == '_'
}

#[verifier::when_used_as_spec(spec_is_name_char)]
pub fn is_name_char(c: char) -> (r: bool)
    ensures
        r == spec_is_name_char(c),
{
    ('a' <= c && c <= 'z') || ('A' <= c && c <= 'Z') || ('0' <= c && c <= '9') || c == '_'
}

pub open spec fn is_upper_letter(c: char) -> bool {
    'A' <= c && c <= 'Z'
}

/// Key codes of the modifier keys.
pub open spec fn spec_is_modifier_code(code: u16) -> bool {
    code == 42 || code == 54 || code == 29 || code == 97 || code == 56 || code == 100
        || code == 125 || code == 126
}

#[verifier::when_used_as_spec(spec_is_modifier_code)]
pub fn is_modifier_code(code: u16) -> (r: bool)
    ensures
        r == spec_is_modifier_code(code),
{
    code == 42 || code == 54 || code == 29 || code == 97 || code == 56 || code == 100
        || code == 125 || code == 126
}

/// The key code 42 is the left shift key, injected before capital letters.
pub const KEY_CODE_LEFTSHIFT: u16 = 42;

/// Compare a character vector to a string slice.
pub fn chars_eq_str(v: &Vec<char>, s: &str) -> (r: bool)
    ensures
        r == (v@ == s@),
{
    let n = s.unicode_len();
    if v.len() != n {
        proof {
            assert(v@ != s@);
        }
        return false;
    }
    let mut i: usize = 0;
    while i < n
        invariant
            n == s@.len(),
            v@.len() == n,
            i <= n,
            forall|j: int| 0 <= j < i ==> v@[j] == s@[j],
        decreases n - i,
    {
        if v[i] != s.get_char(i) {
            proof {
                assert(v@[i as int] != s@[i as int]);
                assert(v@ != s@);
            }
            return false;
        }
        i += 1;
    }
    proof {
        assert(v@ =~= s@);
    }
    true
}

proof fn lemma_skip_step(defs: Seq<(u16, Seq<char>)>, i: int)
    requires
        0 <= i < defs.len(),
    ensures
        defs.skip(i).drop_first() =~= defs.skip(i + 1),
        defs.skip(i).len() == defs.len() - i,
        defs.skip(i)[0] == defs[i],
{
}

/// Resolve an already upper-cased name against the table.
fn lookup_code_exec(name: &Vec<char>) -> (r: Option<u16>)
    ensures
        r == lookup_code(key_defs(), name@),
{
    let ghost defs = key_defs();
    proof {
        assert(defs.skip(0) =~= defs);
    }
    let mut i: usize = 0;
    while i < KEY_DEF_COUNT
        invariant
            i <= KEY_DEF_COUNT,
            defs == key_defs(),
            defs.len() == KEY_DEF_COUNT as int,
            lookup_code(defs, name@) == lookup_code(defs.skip(i as int), name@),
        decreases KEY_DEF_COUNT - i,
    {
        let (code, nm) = key_def_at(i);
        proof {
            lemma_skip_step(defs, i as int);
        }
        if chars_eq_str(name, nm) {
            return Some(code);
        }
        i += 1;
    }
    proof {
        assert(defs.skip(KEY_DEF_COUNT as int).len() == 0);
    }
    None
}

/// The name of a code, as executable data.
pub fn key_name_of(code: u16) -> (r: Option<&'static str>)
    ensures
        match r {
            Some(s) => lookup_name(key_defs(), code) == Some(s@),
            None => lookup_name(key_defs(), code) is None,
        },
{
    let ghost defs = key_defs();
    proof {
        assert(defs.skip(0) =~= defs);
    }
    let mut i: usize = 0;
    while i < KEY_DEF_COUNT
        invariant
            i <= KEY_DEF_COUNT,
            defs == key_defs(),
            defs.len() == KEY_DEF_COUNT as int,
            lookup_name(defs, code) == lookup_name(defs.skip(i as int), code),
        decreases KEY_DEF_COUNT - i,
    {
        let (c, nm) = key_def_at(i);
        proof {
            lemma_skip_step(defs, i as int);
        }
        if c == code {
            return Some(nm);
        }
        i += 1;
    }
    proof {
        assert(defs.skip(KEY_DEF_COUNT as int).len() == 0);
    }
    None
}

/// What a key name in the grammar stands for: the name is upper-cased, looked
/// up as written, and failing that with `KEY_` prefixed.
pub open spec fn spec_resolve_key(name: Seq<char>) -> Option<Key> {
    let u = upper_chars(name);
    match lookup_code(key_defs(), u) {
        Some(code) => Some(Key { event_type: EV_KEY, code }),
        None => match lookup_code(key_defs(), seq!['K', 'E', 'Y', '_'] + u) {
            Some(code) => Some(Key { event_type: EV_KEY, code }),
            None => None,
        },
    }
}

pub fn resolve_key(name: &Vec<char>) -> (r: Option<Key>)
    ensures
        r == spec_resolve_key(name@),
{
    let mut upper: Vec<char> = Vec::new();
    let mut i: usize = 0;
    while i < name.len()
        invariant
            i <= name.len(),
            upper@ == upper_chars(name@.take(i as int)),
        decreases name.len() - i,
    {
        upper.push(to_upper(name[i]));
        proof {
            assert(upper@ =~= upper_chars(name@.take(i as int + 1)));
        }
        i += 1;
    }
    proof {
        assert(name@.take(name@.len() as int) =~= name@);
    }
    match lookup_code_exec(&upper) {
        Some(code) => Some(Key { event_type: EV_KEY, code }),
        None => {
            let mut prefixed: Vec<char> = Vec::new();
            prefixed.push('K');
            prefixed.push('E');
            prefixed.push('Y');
            prefixed.push('_');
            let mut j: usize = 0;
            while j < upper.len()
                invariant
                    j <= upper.len(),
                    prefixed@ == seq!['K', 'E', 'Y', '_'] + upper@.take(j as int),
                decreases upper.len() - j,
            {
                prefixed.push(upper[j]);
                proof {
                    assert(prefixed@ =~= seq!['K', 'E', 'Y', '_'] + upper@.take(j as int + 1));
                }
                j += 1;
            }
            proof {
                assert(upper@.take(upper@.len() as int) =~= upper@);
            }
            match lookup_code_exec(&prefixed) {
                Some(code) => Some(Key { event_type: EV_KEY, code }),
                None => None,
            }
        },
    }
}

/// The `{NAME}` literal for a key code, as `number_to_key` prints it.
pub fn key_code_to_literal(code: u16) -> (r: Option<String>)
    ensures
        match r {
            Some(s) => lookup_name(key_defs(), code) is Some && s@ == seq!['{']
                + lookup_name(key_defs(), code)->0 + seq!['}'],
            None => lookup_name(key_defs(), code) is None,
        },
{
    match key_name_of(code) {
        Some(name) => {
            let s = String::from_str("{").concat(name).concat("}");
            proof {
                reveal_strlit("{");
                reveal_strlit("}");
                assert(s@ =~= seq!['{'] + lookup_name(key_defs(), code)->0 + seq!['}']);
            }
            Some(s)
        },
        None => None,
    }
}

/// Names are pairwise distinct.
pub open spec fn distinct_names(defs: Seq<(u16, Seq<char>)>) -> bool {
    forall|i: int, j: int| 0 <= i < j < defs.len() ==> defs[i].1 != defs[j].1
}

/// Every name is upper case, at least two characters, and name characters only.
pub open spec fn canonical_names(defs: Seq<(u16, Seq<char>)>) -> bool {
    forall|i: int| 0 <= i < defs.len() ==> {
        &&& upper_chars(#[trigger] defs[i].1) == defs[i].1
        &&& defs[i].1.len() >= 2
        &&& forall|j: int| 0 <= j < defs[i].1.len() ==> spec_is_name_char(#[trigger] defs[i].1[j])
    }
}

pub open spec fn table_wf(defs: Seq<(u16, Seq<char>)>) -> bool {
    distinct_names(defs) && canonical_names(defs)
}

fn name_chars_of(s: &str) -> (r: Vec<char>)
    ensures
        r@ == s@,
{
    let n = s.unicode_len();
    let mut v: Vec<char> = Vec::new();
    let mut i: usize = 0;
    while i < n
        invariant
            n == s@.len(),
            i <= n,
            v@ == s@.take(i as int),
        decreases n - i,
    {
        v.push(s.get_char(i));
        proof {
            assert(v@ =~= s@.take(i as int + 1));
        }
        i += 1;
    }
    proof {
        assert(s@.take(n as int) =~= s@);
    }
    v
}

fn entry_canonical(nm: &str) -> (r: bool)
    ensures
        r ==> {
            &&& upper_chars(nm@) == nm@
            &&& nm@.len() >= 2
            &&& forall|j: int| 0 <= j < nm@.len() ==> spec_is_name_char(#[trigger] nm@[j])
        },
{
    let chars = name_chars_of(nm);
    if chars.len() < 2 {
        return false;
    }
    let mut j: usize = 0;
    while j < chars.len()
        invariant
            chars@ == nm@,
            j <= chars@.len(),
            forall|l: int| 0 <= l < j ==> spec_to_upper(#[trigger] nm@[l]) == nm@[l],
            forall|l: int| 0 <= l < j ==> spec_is_name_char(#[trigger] nm@[l]),
        decreases chars.len() - j,
    {
        let c = chars[j];
        if to_upper(c) != c || !is_name_char(c) {
            return false;
        }
        j += 1;
    }
    proof {
        assert(upper_chars(nm@) =~= nm@);
    }
    true
}

/// Runtime check that the table is well formed; the round-trip law is stated
/// for every well-formed table, and a test holds this one to it.
pub fn key_table_is_wf() -> (r: bool)
    ensures
        r ==> table_wf(key_defs()),
{
    let ghost defs = key_defs();
    proof {
        assert(defs.len() == KEY_DEF_COUNT as int);
    }
    let mut i: usize = 0;
    while i < KEY_DEF_COUNT
        invariant
            i <= KEY_DEF_COUNT,
            defs == key_defs(),
            defs.len() == KEY_DEF_COUNT as int,
            forall|a: int, b: int| 0 <= a < b < defs.len() && a < i ==> defs[a].1 != defs[b].1,
            forall|a: int| 0 <= a < i ==> {
                &&& upper_chars(#[trigger] defs[a].1) == defs[a].1
                &&& defs[a].1.len() >= 2
                &&& forall|j: int| 0 <= j < defs[a].1.len() ==> spec_is_name_char(
                    #[trigger] defs[a].1[j],
                )
            },
        decreases KEY_DEF_COUNT - i,
    {
        let (_, nm_i) = key_def_at(i);
        if !entry_canonical(nm_i) {
            return false;
        }
        let nm_chars = name_chars_of(nm_i);
        let mut j: usize = i + 1;
        while j < KEY_DEF_COUNT
            invariant
                i < j,
                j <= KEY_DEF_COUNT,
                defs == key_defs(),
                defs.len() == KEY_DEF_COUNT as int,
                nm_chars@ == defs[i as int].1,
                forall|b: int| i < b < j ==> defs[i as int].1 != defs[b].1,
            decreases KEY_DEF_COUNT - j,
        {
            let (_, nm_j) = key_def_at(j);
            if chars_eq_str(&nm_chars, nm_j) {
                return false;
            }
            j += 1;
        }
        i += 1;
    }
    true
}

/// In a table with distinct names, looking the name of a code back up finds
/// that code again.
pub proof fn lemma_lookup_round(defs: Seq<(u16, Seq<char>)>, k: u16)
    requires
        distinct_names(defs),
        lookup_name(defs, k) is Some,
    ensures
        lookup_code(defs, lookup_name(defs, k)->0) == Some(k),
    decreases defs.len(),
{
    if defs[0].0 == k {
    } else {
        let rest = defs.drop_first();
        assert forall|a: int, b: int| 0 <= a < b < rest.len() implies rest[a].1 != rest[b].1 by {
            assert(rest[a] == defs[a + 1]);
            assert(rest[b] == defs[b + 1]);
        }
        lemma_lookup_round(rest, k);
        let n = lookup_name(rest, k)->0;
        lemma_lookup_name_in_table(rest, k);
        let idx = choose|idx: int| 0 <= idx < rest.len() && rest[idx].1 == n && rest[idx].0 == k;
        assert(defs[idx + 1].1 == n);
        assert(defs[0].1 != n);
    }
}

/// The name found for a code stands in the table beside that code.
pub proof fn lemma_lookup_name_in_table(defs: Seq<(u16, Seq<char>)>, k: u16)
    requires
        lookup_name(defs, k) is Some,
    ensures
        exists|idx: int| 0 <= idx < defs.len() && defs[idx].1 == lookup_name(defs, k)->0
            && defs[idx].0 == k,
    decreases defs.len(),
{
    if defs[0].0 == k {
        assert(defs[0].1 == lookup_name(defs, k)->0 && defs[0].0 == k);
    } else {
        let rest = defs.drop_first();
        lemma_lookup_name_in_table(rest, k);
        let idx = choose|idx: int| 0 <= idx < rest.len() && rest[idx].1 == lookup_name(rest, k)->0
            && rest[idx].0 == k;
        assert(defs[idx + 1] == rest[idx]);
    }
}

/// Compare two string slices character by character.
pub fn str_eq_str(a: &str, b: &str) -> (r: bool)
    ensures
        r == (a@ == b@),
{
    let na = a.unicode_len();
    let nb = b.unicode_len();
    if na != nb {
        proof {
            assert(a@ != b@);
        }
        return false;
    }
    let mut i: usize = 0;
    while i < na
        invariant
            na == a@.len(),
            nb == b@.len(),
            na == nb,
            i <= na,
            forall|j: int| 0 <= j < i ==> a@[j] == b@[j],
        decreases na - i,
    {
        if a.get_char(i) != b.get_char(i) {
            proof {
                assert(a@[i as int] != b@[i as int]);
            }
            return false;
        }
        i += 1;
    }
    proof {
        assert(a@ =~= b@);
    }
    true
}

} // verus!
