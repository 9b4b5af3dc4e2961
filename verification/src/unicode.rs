// Unicode character classes used by the detectors, as code-point ranges.
use vstd::prelude::*;

verus! {

/// Unicode script Han (the set `\p{Han}` denotes).
#[verifier::opaque]
pub open spec fn is_han(c: char) -> bool {
    let u = c as u32;
    if u < 0x16FE2 {
        if u < 0x3021 {
            if u < 0x2F00 {
                (0x2E80 <= u && u <= 0x2E99) || (0x2E9B <= u && u <= 0x2EF3)
            } else {
                (0x2F00 <= u && u <= 0x2FD5) || u == 0x3005 || u == 0x3007
            }
        } else {
            if u < 0x4E00 {
                (0x3021 <= u && u <= 0x3029) || (0x3038 <= u && u <= 0x303B) || (0x3400 <= u && u <= 0x4DBF)
            } else {
                (0x4E00 <= u && u <= 0x9FFF) || (0xF900 <= u && u <= 0xFA6D) || (0xFA70 <= u && u <= 0xFAD9)
            }
        }
    } else {
        if u < 0x2B820 {
            if u < 0x20000 {
                (0x16FE2 <= u && u <= 0x16FE3) || (0x16FF0 <= u && u <= 0x16FF1)
            } else {
                (0x20000 <= u && u <= 0x2A6DF) || (0x2A700 <= u && u <= 0x2B739) || (0x2B740 <= u && u <= 0x2B81D)
            }
        } else {
            if u < 0x2F800 {
                (0x2B820 <= u && u <= 0x2CEA1) || (0x2CEB0 <= u && u <= 0x2EBE0) || (0x2EBF0 <= u && u <= 0x2EE5D)
            } else {
                (0x2F800 <= u && u <= 0x2FA1D) || (0x30000 <= u && u <= 0x3134A) || (0x31350 <= u && u <= 0x323AF)
            }
        }
    }
}

/// Decides `is_han`.
pub fn han(c: char) -> (r: bool)
    ensures
        r == is_han(c),
{
    reveal(is_han);
    let u = c as u32;
    if u < 0x16FE2 {
        if u < 0x3021 {
            if u < 0x2F00 {
                (0x2E80 <= u && u <= 0x2E99) || (0x2E9B <= u && u <= 0x2EF3)
            } else {
                (0x2F00 <= u && u <= 0x2FD5) || u == 0x3005 || u == 0x3007
            }
        } else {
            if u < 0x4E00 {
                (0x3021 <= u && u <= 0x3029) || (0x3038 <= u && u <= 0x303B) || (0x3400 <= u && u <= 0x4DBF)
            } else {
                (0x4E00 <= u && u <= 0x9FFF) || (0xF900 <= u && u <= 0xFA6D) || (0xFA70 <= u && u <= 0xFAD9)
            }
        }
    } else {
        if u < 0x2B820 {
            if u < 0x20000 {
                (0x16FE2 <= u && u <= 0x16FE3) || (0x16FF0 <= u && u <= 0x16FF1)
            } else {
                (0x20000 <= u && u <= 0x2A6DF) || (0x2A700 <= u && u <= 0x2B739) || (0x2B740 <= u && u <= 0x2B81D)
            }
        } else {
            if u < 0x2F800 {
                (0x2B820 <= u && u <= 0x2CEA1) || (0x2CEB0 <= u && u <= 0x2EBE0) || (0x2EBF0 <= u && u <= 0x2EE5D)
            } else {
                (0x2F800 <= u && u <= 0x2FA1D) || (0x30000 <= u && u <= 0x3134A) || (0x31350 <= u && u <= 0x323AF)
            }
        }
    }
}

/// Unicode script Hiragana (`\p{Hiragana}`).
pub open spec fn is_hiragana(c: char) -> bool {
    let u = c as u32;
    if u < 0x1B132 {
        (0x3041 <= u && u <= 0x3096) || (0x309D <= u && u <= 0x309F) || (0x1B001 <= u && u <= 0x1B11F)
    } else {
        u == 0x1B132 || (0x1B150 <= u && u <= 0x1B152) || u == 0x1F200
    }
}

/// Decides `is_hiragana`.
pub fn hiragana(c: char) -> (r: bool)
    ensures
        r == is_hiragana(c),
{
    let u = c as u32;
    if u < 0x1B132 {
        (0x3041 <= u && u <= 0x3096) || (0x309D <= u && u <= 0x309F) || (0x1B001 <= u && u <= 0x1B11F)
    } else {
        u == 0x1B132 || (0x1B150 <= u && u <= 0x1B152) || u == 0x1F200
    }
}

/// Unicode script Katakana (`\p{Katakana}`).
pub open spec fn is_katakana(c: char) -> bool {
    let u = c as u32;
    if u < 0x1AFF0 {
        if u < 0x32D0 {
            (0x30A1 <= u && u <= 0x30FA) || (0x30FD <= u && u <= 0x30FF) || (0x31F0 <= u && u <= 0x31FF)
        } else {
            (0x32D0 <= u && u <= 0x32FE) || (0x3300 <= u && u <= 0x3357) || (0xFF66 <= u && u <= 0xFF6F) || (0xFF71 <= u && u <= 0xFF9D)
        }
    } else {
        if u < 0x1B000 {
            (0x1AFF0 <= u && u <= 0x1AFF3) || (0x1AFF5 <= u && u <= 0x1AFFB) || (0x1AFFD <= u && u <= 0x1AFFE)
        } else {
            u == 0x1B000 || (0x1B120 <= u && u <= 0x1B122) || u == 0x1B155 || (0x1B164 <= u && u <= 0x1B167)
        }
    }
}

/// Decides `is_katakana`.
pub fn katakana(c: char) -> (r: bool)
    ensures
        r == is_katakana(c),
{
    let u = c as u32;
    if u < 0x1AFF0 {
        if u < 0x32D0 {
            (0x30A1 <= u && u <= 0x30FA) || (0x30FD <= u && u <= 0x30FF) || (0x31F0 <= u && u <= 0x31FF)
        } else {
            (0x32D0 <= u && u <= 0x32FE) || (0x3300 <= u && u <= 0x3357) || (0xFF66 <= u && u <= 0xFF6F) || (0xFF71 <= u && u <= 0xFF9D)
        }
    } else {
        if u < 0x1B000 {
            (0x1AFF0 <= u && u <= 0x1AFF3) || (0x1AFF5 <= u && u <= 0x1AFFB) || (0x1AFFD <= u && u <= 0x1AFFE)
        } else {
            u == 0x1B000 || (0x1B120 <= u && u <= 0x1B122) || u == 0x1B155 || (0x1B164 <= u && u <= 0x1B167)
        }
    }
}

/// Unicode White_Space (what `char::is_whitespace` and `\s` accept).
pub open spec fn is_white_space(c: char) -> bool {
    let u = c as u32;
    if u < 0x2000 {
        if u < 0x85 {
            (0x9 <= u && u <= 0xD) || u == 0x20
        } else {
            u == 0x85 || u == 0xA0 || u == 0x1680
        }
    } else {
        if u < 0x202F {
            (0x2000 <= u && u <= 0x200A) || (0x2028 <= u && u <= 0x2029)
        } else {
            u == 0x202F || u == 0x205F || u == 0x3000
        }
    }
}

/// Decides `is_white_space`.
pub fn white_space(c: char) -> (r: bool)
    ensures
        r == is_white_space(c),
{
    let u = c as u32;
    if u < 0x2000 {
        if u < 0x85 {
            (0x9 <= u && u <= 0xD) || u == 0x20
        } else {
            u == 0x85 || u == 0xA0 || u == 0x1680
        }
    } else {
        if u < 0x202F {
            (0x2000 <= u && u <= 0x200A) || (0x2028 <= u && u <= 0x2029)
        } else {
            u == 0x202F || u == 0x205F || u == 0x3000
        }
    }
}

/// Unicode decimal digits, general category Nd (`\d`).
#[verifier::opaque]
pub open spec fn is_decimal_digit(c: char) -> bool {
    let u = c as u32;
    if u < 0xABF0 {
        if u < 0x1040 {
            if u < 0xB66 {
                if u < 0x966 {
                    (0x30 <= u && u <= 0x39) || (0x660 <= u && u <= 0x669) || (0x6F0 <= u && u <= 0x6F9) || (0x7C0 <= u && u <= 0x7C9)
                } else {
                    (0x966 <= u && u <= 0x96F) || (0x9E6 <= u && u <= 0x9EF) || (0xA66 <= u && u <= 0xA6F) || (0xAE6 <= u && u <= 0xAEF)
                }
            } else {
                if u < 0xD66 {
                    (0xB66 <= u && u <= 0xB6F) || (0xBE6 <= u && u <= 0xBEF) || (0xC66 <= u && u <= 0xC6F) || (0xCE6 <= u && u <= 0xCEF)
                } else {
                    if u < 0xE50 {
                        (0xD66 <= u && u <= 0xD6F) || (0xDE6 <= u && u <= 0xDEF)
                    } else {
                        (0xE50 <= u && u <= 0xE59) || (0xED0 <= u && u <= 0xED9) || (0xF20 <= u && u <= 0xF29)
                    }
                }
            }
        } else {
            if u < 0x1BB0 {
                if u < 0x1946 {
                    (0x1040 <= u && u <= 0x1049) || (0x1090 <= u && u <= 0x1099) || (0x17E0 <= u && u <= 0x17E9) || (0x1810 <= u && u <= 0x1819)
                } else {
                    if u < 0x1A80 {
                        (0x1946 <= u && u <= 0x194F) || (0x19D0 <= u && u <= 0x19D9)
                    } else {
                        (0x1A80 <= u && u <= 0x1A89) || (0x1A90 <= u && u <= 0x1A99) || (0x1B50 <= u && u <= 0x1B59)
                    }
                }
            } else {
                if u < 0xA8D0 {
                    (0x1BB0 <= u && u <= 0x1BB9) || (0x1C40 <= u && u <= 0x1C49) || (0x1C50 <= u && u <= 0x1C59) || (0xA620 <= u && u <= 0xA629)
                } else {
                    if u < 0xA9D0 {
                        (0xA8D0 <= u && u <= 0xA8D9) || (0xA900 <= u && u <= 0xA909)
                    } else {
                        (0xA9D0 <= u && u <= 0xA9D9) || (0xA9F0 <= u && u <= 0xA9F9) || (0xAA50 <= u && u <= 0xAA59)
                    }
                }
            }
        }
    } else {
        if u < 0x11BF0 {
            if u < 0x112F0 {
                if u < 0x10D40 {
                    (0xABF0 <= u && u <= 0xABF9) || (0xFF10 <= u && u <= 0xFF19) || (0x104A0 <= u && u <= 0x104A9) || (0x10D30 <= u && u <= 0x10D39)
                } else {
                    if u < 0x110F0 {
                        (0x10D40 <= u && u <= 0x10D49) || (0x11066 <= u && u <= 0x1106F)
                    } else {
                        (0x110F0 <= u && u <= 0x110F9) || (0x11136 <= u && u <= 0x1113F) || (0x111D0 <= u && u <= 0x111D9)
                    }
                }
            } else {
                if u < 0x116C0 {
                    (0x112F0 <= u && u <= 0x112F9) || (0x11450 <= u && u <= 0x11459) || (0x114D0 <= u && u <= 0x114D9) || (0x11650 <= u && u <= 0x11659)
                } else {
                    if u < 0x11730 {
                        (0x116C0 <= u && u <= 0x116C9) || (0x116D0 <= u && u <= 0x116E3)
                    } else {
                        (0x11730 <= u && u <= 0x11739) || (0x118E0 <= u && u <= 0x118E9) || (0x11950 <= u && u <= 0x11959)
                    }
                }
            }
        } else {
            if u < 0x16D70 {
                if u < 0x11F50 {
                    (0x11BF0 <= u && u <= 0x11BF9) || (0x11C50 <= u && u <= 0x11C59) || (0x11D50 <= u && u <= 0x11D59) || (0x11DA0 <= u && u <= 0x11DA9)
                } else {
                    if u < 0x16A60 {
                        (0x11F50 <= u && u <= 0x11F59) || (0x16130 <= u && u <= 0x16139)
                    } else {
                        (0x16A60 <= u && u <= 0x16A69) || (0x16AC0 <= u && u <= 0x16AC9) || (0x16B50 <= u && u <= 0x16B59)
                    }
                }
            } else {
                if u < 0x1E2F0 {
                    (0x16D70 <= u && u <= 0x16D79) || (0x1CCF0 <= u && u <= 0x1CCF9) || (0x1D7CE <= u && u <= 0x1D7FF) || (0x1E140 <= u && u <= 0x1E149)
                } else {
                    if u < 0x1E5F1 {
                        (0x1E2F0 <= u && u <= 0x1E2F9) || (0x1E4F0 <= u && u <= 0x1E4F9)
                    } else {
                        (0x1E5F1 <= u && u <= 0x1E5FA) || (0x1E950 <= u && u <= 0x1E959) || (0x1FBF0 <= u && u <= 0x1FBF9)
                    }
                }
            }
        }
    }
}

/// Decides `is_decimal_digit`.
pub fn decimal_digit(c: char) -> (r: bool)
    ensures
        r == is_decimal_digit(c),
{
    reveal(is_decimal_digit);
    let u = c as u32;
    if u < 0xABF0 {
        if u < 0x1040 {
            if u < 0xB66 {
                if u < 0x966 {
                    (0x30 <= u && u <= 0x39) || (0x660 <= u && u <= 0x669) || (0x6F0 <= u && u <= 0x6F9) || (0x7C0 <= u && u <= 0x7C9)
                } else {
                    (0x966 <= u && u <= 0x96F) || (0x9E6 <= u && u <= 0x9EF) || (0xA66 <= u && u <= 0xA6F) || (0xAE6 <= u && u <= 0xAEF)
                }
            } else {
                if u < 0xD66 {
                    (0xB66 <= u && u <= 0xB6F) || (0xBE6 <= u && u <= 0xBEF) || (0xC66 <= u && u <= 0xC6F) || (0xCE6 <= u && u <= 0xCEF)
                } else {
                    if u < 0xE50 {
                        (0xD66 <= u && u <= 0xD6F) || (0xDE6 <= u && u <= 0xDEF)
                    } else {
                        (0xE50 <= u && u <= 0xE59) || (0xED0 <= u && u <= 0xED9) || (0xF20 <= u && u <= 0xF29)
                    }
                }
            }
        } else {
            if u < 0x1BB0 {
                if u < 0x1946 {
                    (0x1040 <= u && u <= 0x1049) || (0x1090 <= u && u <= 0x1099) || (0x17E0 <= u && u <= 0x17E9) || (0x1810 <= u && u <= 0x1819)
                } else {
                    if u < 0x1A80 {
                        (0x1946 <= u && u <= 0x194F) || (0x19D0 <= u && u <= 0x19D9)
                    } else {
                        (0x1A80 <= u && u <= 0x1A89) || (0x1A90 <= u && u <= 0x1A99) || (0x1B50 <= u && u <= 0x1B59)
                    }
                }
            } else {
                if u < 0xA8D0 {
                    (0x1BB0 <= u && u <= 0x1BB9) || (0x1C40 <= u && u <= 0x1C49) || (0x1C50 <= u && u <= 0x1C59) || (0xA620 <= u && u <= 0xA629)
                } else {
                    if u < 0xA9D0 {
                        (0xA8D0 <= u && u <= 0xA8D9) || (0xA900 <= u && u <= 0xA909)
                    } else {
                        (0xA9D0 <= u && u <= 0xA9D9) || (0xA9F0 <= u && u <= 0xA9F9) || (0xAA50 <= u && u <= 0xAA59)
                    }
                }
            }
        }
    } else {
        if u < 0x11BF0 {
            if u < 0x112F0 {
                if u < 0x10D40 {
                    (0xABF0 <= u && u <= 0xABF9) || (0xFF10 <= u && u <= 0xFF19) || (0x104A0 <= u && u <= 0x104A9) || (0x10D30 <= u && u <= 0x10D39)
                } else {
                    if u < 0x110F0 {
                        (0x10D40 <= u && u <= 0x10D49) || (0x11066 <= u && u <= 0x1106F)
                    } else {
                        (0x110F0 <= u && u <= 0x110F9) || (0x11136 <= u && u <= 0x1113F) || (0x111D0 <= u && u <= 0x111D9)
                    }
                }
            } else {
                if u < 0x116C0 {
                    (0x112F0 <= u && u <= 0x112F9) || (0x11450 <= u && u <= 0x11459) || (0x114D0 <= u && u <= 0x114D9) || (0x11650 <= u && u <= 0x11659)
                } else {
                    if u < 0x11730 {
                        (0x116C0 <= u && u <= 0x116C9) || (0x116D0 <= u && u <= 0x116E3)
                    } else {
                        (0x11730 <= u && u <= 0x11739) || (0x118E0 <= u && u <= 0x118E9) || (0x11950 <= u && u <= 0x11959)
                    }
                }
            }
        } else {
            if u < 0x16D70 {
                if u < 0x11F50 {
                    (0x11BF0 <= u && u <= 0x11BF9) || (0x11C50 <= u && u <= 0x11C59) || (0x11D50 <= u && u <= 0x11D59) || (0x11DA0 <= u && u <= 0x11DA9)
                } else {
                    if u < 0x16A60 {
                        (0x11F50 <= u && u <= 0x11F59) || (0x16130 <= u && u <= 0x16139)
                    } else {
                        (0x16A60 <= u && u <= 0x16A69) || (0x16AC0 <= u && u <= 0x16AC9) || (0x16B50 <= u && u <= 0x16B59)
                    }
                }
            } else {
                if u < 0x1E2F0 {
                    (0x16D70 <= u && u <= 0x16D79) || (0x1CCF0 <= u && u <= 0x1CCF9) || (0x1D7CE <= u && u <= 0x1D7FF) || (0x1E140 <= u && u <= 0x1E149)
                } else {
                    if u < 0x1E5F1 {
                        (0x1E2F0 <= u && u <= 0x1E2F9) || (0x1E4F0 <= u && u <= 0x1E4F9)
                    } else {
                        (0x1E5F1 <= u && u <= 0x1E5FA) || (0x1E950 <= u && u <= 0x1E959) || (0x1FBF0 <= u && u <= 0x1FBF9)
                    }
                }
            }
        }
    }
}

/// Unicode word characters (`\w`: letters, marks, digits, connector punctuation).
#[verifier::opaque]
pub open spec fn is_word_char(c: char) -> bool {
    let u = c as u32;
    if u < 0xF900 {
        if u < 0xF3E {
            if u < 0xAE6 {
                if u < 0x860 {
                    if u < 0x483 {
                        if u < 0x2EC {
                            if u < 0xBA {
                                if u < 0x61 {
                                    (0x30 <= u && u <= 0x39) || (0x41 <= u && u <= 0x5A) || u == 0x5F
                                } else {
                                    (0x61 <= u && u <= 0x7A) || u == 0xAA || u == 0xB5
                                }
                            } else {
                                if u < 0xF8 {
                                    u == 0xBA || (0xC0 <= u && u <= 0xD6) || (0xD8 <= u && u <= 0xF6)
                                } else {
                                    (0xF8 <= u && u <= 0x2C1) || (0x2C6 <= u && u <= 0x2D1) || (0x2E0 <= u && u <= 0x2E4)
                                }
                            }
                        } else {
                            if u < 0x386 {
                                if u < 0x376 {
                                    u == 0x2EC || u == 0x2EE || (0x300 <= u && u <= 0x374)
                                } else {
                                    (0x376 <= u && u <= 0x377) || (0x37A <= u && u <= 0x37D) || u == 0x37F
                                }
                            } else {
                                if u < 0x38E {
                                    u == 0x386 || (0x388 <= u && u <= 0x38A) || u == 0x38C
                                } else {
                                    (0x38E <= u && u <= 0x3A1) || (0x3A3 <= u && u <= 0x3F5) || (0x3F7 <= u && u <= 0x481)
                                }
                            }
                        }
                    } else {
                        if u < 0x620 {
                            if u < 0x5C1 {
                                if u < 0x560 {
                                    (0x483 <= u && u <= 0x52F) || (0x531 <= u && u <= 0x556) || u == 0x559
                                } else {
                                    (0x560 <= u && u <= 0x588) || (0x591 <= u && u <= 0x5BD) || u == 0x5BF
                                }
                            } else {
                                if u < 0x5D0 {
                                    (0x5C1 <= u && u <= 0x5C2) || (0x5C4 <= u && u <= 0x5C5) || u == 0x5C7
                                } else {
                                    (0x5D0 <= u && u <= 0x5EA) || (0x5EF <= u && u <= 0x5F2) || (0x610 <= u && u <= 0x61A)
                                }
                            }
                        } else {
                            if u < 0x710 {
                                if u < 0x6DF {
                                    (0x620 <= u && u <= 0x669) || (0x66E <= u && u <= 0x6D3) || (0x6D5 <= u && u <= 0x6DC)
                                } else {
                                    (0x6DF <= u && u <= 0x6E8) || (0x6EA <= u && u <= 0x6FC) || u == 0x6FF
                                }
                            } else {
                                if u < 0x7FA {
                                    (0x710 <= u && u <= 0x74A) || (0x74D <= u && u <= 0x7B1) || (0x7C0 <= u && u <= 0x7F5)
                                } else {
                                    u == 0x7FA || u == 0x7FD || (0x800 <= u && u <= 0x82D) || (0x840 <= u && u <= 0x85B)
                                }
                            }
                        }
                    }
                } else {
                    if u < 0xA13 {
                        if u < 0x9B6 {
                            if u < 0x971 {
                                if u < 0x897 {
                                    (0x860 <= u && u <= 0x86A) || (0x870 <= u && u <= 0x887) || (0x889 <= u && u <= 0x88E)
                                } else {
                                    (0x897 <= u && u <= 0x8E1) || (0x8E3 <= u && u <= 0x963) || (0x966 <= u && u <= 0x96F)
                                }
                            } else {
                                if u < 0x993 {
                                    (0x971 <= u && u <= 0x983) || (0x985 <= u && u <= 0x98C) || (0x98F <= u && u <= 0x990)
                                } else {
                                    (0x993 <= u && u <= 0x9A8) || (0x9AA <= u && u <= 0x9B0) || u == 0x9B2
                                }
                            }
                        } else {
                            if u < 0x9DF {
                                if u < 0x9CB {
                                    (0x9B6 <= u && u <= 0x9B9) || (0x9BC <= u && u <= 0x9C4) || (0x9C7 <= u && u <= 0x9C8)
                                } else {
                                    (0x9CB <= u && u <= 0x9CE) || u == 0x9D7 || (0x9DC <= u && u <= 0x9DD)
                                }
                            } else {
                                if u < 0x9FE {
                                    (0x9DF <= u && u <= 0x9E3) || (0x9E6 <= u && u <= 0x9F1) || u == 0x9FC
                                } else {
                                    u == 0x9FE || (0xA01 <= u && u <= 0xA03) || (0xA05 <= u && u <= 0xA0A) || (0xA0F <= u && u <= 0xA10)
                                }
                            }
                        }
                    } else {
                        if u < 0xA66 {
                            if u < 0xA3E {
                                if u < 0xA35 {
                                    (0xA13 <= u && u <= 0xA28) || (0xA2A <= u && u <= 0xA30) || (0xA32 <= u && u <= 0xA33)
                                } else {
                                    (0xA35 <= u && u <= 0xA36) || (0xA38 <= u && u <= 0xA39) || u == 0xA3C
                                }
                            } else {
                                if u < 0xA51 {
                                    (0xA3E <= u && u <= 0xA42) || (0xA47 <= u && u <= 0xA48) || (0xA4B <= u && u <= 0xA4D)
                                } else {
                                    u == 0xA51 || (0xA59 <= u && u <= 0xA5C) || u == 0xA5E
                                }
                            }
                        } else {
                            if u < 0xAB2 {
                                if u < 0xA8F {
                                    (0xA66 <= u && u <= 0xA75) || (0xA81 <= u && u <= 0xA83) || (0xA85 <= u && u <= 0xA8D)
                                } else {
                                    (0xA8F <= u && u <= 0xA91) || (0xA93 <= u && u <= 0xAA8) || (0xAAA <= u && u <= 0xAB0)
                                }
                            } else {
                                if u < 0xAC7 {
                                    (0xAB2 <= u && u <= 0xAB3) || (0xAB5 <= u && u <= 0xAB9) || (0xABC <= u && u <= 0xAC5)
                                } else {
                                    (0xAC7 <= u && u <= 0xAC9) || (0xACB <= u && u <= 0xACD) || u == 0xAD0 || (0xAE0 <= u && u <= 0xAE3)
                                }
                            }
                        }
                    }
                }
            } else {
                if u < 0xCB5 {
                    if u < 0xBA8 {
                        if u < 0xB55 {
                            if u < 0xB2A {
                                if u < 0xB05 {
                                    (0xAE6 <= u && u <= 0xAEF) || (0xAF9 <= u && u <= 0xAFF) || (0xB01 <= u && u <= 0xB03)
                                } else {
                                    (0xB05 <= u && u <= 0xB0C) || (0xB0F <= u && u <= 0xB10) || (0xB13 <= u && u <= 0xB28)
                                }
                            } else {
                                if u < 0xB3C {
                                    (0xB2A <= u && u <= 0xB30) || (0xB32 <= u && u <= 0xB33) || (0xB35 <= u && u <= 0xB39)
                                } else {
                                    (0xB3C <= u && u <= 0xB44) || (0xB47 <= u && u <= 0xB48) || (0xB4B <= u && u <= 0xB4D)
                                }
                            }
                        } else {
                            if u < 0xB85 {
                                if u < 0xB66 {
                                    (0xB55 <= u && u <= 0xB57) || (0xB5C <= u && u <= 0xB5D) || (0xB5F <= u && u <= 0xB63)
                                } else {
                                    (0xB66 <= u && u <= 0xB6F) || u == 0xB71 || (0xB82 <= u && u <= 0xB83)
                                }
                            } else {
                                if u < 0xB99 {
                                    (0xB85 <= u && u <= 0xB8A) || (0xB8E <= u && u <= 0xB90) || (0xB92 <= u && u <= 0xB95)
                                } else {
                                    (0xB99 <= u && u <= 0xB9A) || u == 0xB9C || (0xB9E <= u && u <= 0xB9F) || (0xBA3 <= u && u <= 0xBA4)
                                }
                            }
                        }
                    } else {
                        if u < 0xC3C {
                            if u < 0xBD7 {
                                if u < 0xBC6 {
                                    (0xBA8 <= u && u <= 0xBAA) || (0xBAE <= u && u <= 0xBB9) || (0xBBE <= u && u <= 0xBC2)
                                } else {
                                    (0xBC6 <= u && u <= 0xBC8) || (0xBCA <= u && u <= 0xBCD) || u == 0xBD0
                                }
                            } else {
                                if u < 0xC0E {
                                    u == 0xBD7 || (0xBE6 <= u && u <= 0xBEF) || (0xC00 <= u && u <= 0xC0C)
                                } else {
                                    (0xC0E <= u && u <= 0xC10) || (0xC12 <= u && u <= 0xC28) || (0xC2A <= u && u <= 0xC39)
                                }
                            }
                        } else {
                            if u < 0xC60 {
                                if u < 0xC55 {
                                    (0xC3C <= u && u <= 0xC44) || (0xC46 <= u && u <= 0xC48) || (0xC4A <= u && u <= 0xC4D)
                                } else {
                                    (0xC55 <= u && u <= 0xC56) || (0xC58 <= u && u <= 0xC5A) || u == 0xC5D
                                }
                            } else {
                                if u < 0xC85 {
                                    (0xC60 <= u && u <= 0xC63) || (0xC66 <= u && u <= 0xC6F) || (0xC80 <= u && u <= 0xC83)
                                } else {
                                    (0xC85 <= u && u <= 0xC8C) || (0xC8E <= u && u <= 0xC90) || (0xC92 <= u && u <= 0xCA8) || (0xCAA <= u && u <= 0xCB3)
                                }
                            }
                        }
                    }
                } else {
                    if u < 0xDCF {
                        if u < 0xD46 {
                            if u < 0xCE0 {
                                if u < 0xCCA {
                                    (0xCB5 <= u && u <= 0xCB9) || (0xCBC <= u && u <= 0xCC4) || (0xCC6 <= u && u <= 0xCC8)
                                } else {
                                    (0xCCA <= u && u <= 0xCCD) || (0xCD5 <= u && u <= 0xCD6) || (0xCDD <= u && u <= 0xCDE)
                                }
                            } else {
                                if u < 0xD00 {
                                    (0xCE0 <= u && u <= 0xCE3) || (0xCE6 <= u && u <= 0xCEF) || (0xCF1 <= u && u <= 0xCF3)
                                } else {
                                    (0xD00 <= u && u <= 0xD0C) || (0xD0E <= u && u <= 0xD10) || (0xD12 <= u && u <= 0xD44)
                                }
                            }
                        } else {
                            if u < 0xD81 {
                                if u < 0xD5F {
                                    (0xD46 <= u && u <= 0xD48) || (0xD4A <= u && u <= 0xD4E) || (0xD54 <= u && u <= 0xD57)
                                } else {
                                    (0xD5F <= u && u <= 0xD63) || (0xD66 <= u && u <= 0xD6F) || (0xD7A <= u && u <= 0xD7F)
                                }
                            } else {
                                if u < 0xDB3 {
                                    (0xD81 <= u && u <= 0xD83) || (0xD85 <= u && u <= 0xD96) || (0xD9A <= u && u <= 0xDB1)
                                } else {
                                    (0xDB3 <= u && u <= 0xDBB) || u == 0xDBD || (0xDC0 <= u && u <= 0xDC6) || u == 0xDCA
                                }
                            }
                        }
                    } else {
                        if u < 0xEA5 {
                            if u < 0xE40 {
                                if u < 0xDE6 {
                                    (0xDCF <= u && u <= 0xDD4) || u == 0xDD6 || (0xDD8 <= u && u <= 0xDDF)
                                } else {
                                    (0xDE6 <= u && u <= 0xDEF) || (0xDF2 <= u && u <= 0xDF3) || (0xE01 <= u && u <= 0xE3A)
                                }
                            } else {
                                if u < 0xE84 {
                                    (0xE40 <= u && u <= 0xE4E) || (0xE50 <= u && u <= 0xE59) || (0xE81 <= u && u <= 0xE82)
                                } else {
                                    u == 0xE84 || (0xE86 <= u && u <= 0xE8A) || (0xE8C <= u && u <= 0xEA3)
                                }
                            }
                        } else {
                            if u < 0xEDC {
                                if u < 0xEC6 {
                                    u == 0xEA5 || (0xEA7 <= u && u <= 0xEBD) || (0xEC0 <= u && u <= 0xEC4)
                                } else {
                                    u == 0xEC6 || (0xEC8 <= u && u <= 0xECE) || (0xED0 <= u && u <= 0xED9)
                                }
                            } else {
                                if u < 0xF20 {
                                    (0xEDC <= u && u <= 0xEDF) || u == 0xF00 || (0xF18 <= u && u <= 0xF19)
                                } else {
                                    (0xF20 <= u && u <= 0xF29) || u == 0xF35 || u == 0xF37 || u == 0xF39
                                }
                            }
                        }
                    }
                }
            }
        } else {
            if u < 0x203F {
                if u < 0x1820 {
                    if u < 0x12C8 {
                        if u < 0x10FC {
                            if u < 0x1000 {
                                if u < 0xF86 {
                                    (0xF3E <= u && u <= 0xF47) || (0xF49 <= u && u <= 0xF6C) || (0xF71 <= u && u <= 0xF84)
                                } else {
                                    (0xF86 <= u && u <= 0xF97) || (0xF99 <= u && u <= 0xFBC) || u == 0xFC6
                                }
                            } else {
                                if u < 0x10C7 {
                                    (0x1000 <= u && u <= 0x1049) || (0x1050 <= u && u <= 0x109D) || (0x10A0 <= u && u <= 0x10C5)
                                } else {
                                    u == 0x10C7 || u == 0x10CD || (0x10D0 <= u && u <= 0x10FA)
                                }
                            }
                        } else {
                            if u < 0x128A {
                                if u < 0x1258 {
                                    (0x10FC <= u && u <= 0x1248) || (0x124A <= u && u <= 0x124D) || (0x1250 <= u && u <= 0x1256)
                                } else {
                                    u == 0x1258 || (0x125A <= u && u <= 0x125D) || (0x1260 <= u && u <= 0x1288)
                                }
                            } else {
                                if u < 0x12B8 {
                                    (0x128A <= u && u <= 0x128D) || (0x1290 <= u && u <= 0x12B0) || (0x12B2 <= u && u <= 0x12B5)
                                } else {
                                    (0x12B8 <= u && u <= 0x12BE) || u == 0x12C0 || (0x12C2 <= u && u <= 0x12C5)
                                }
                            }
                        }
                    } else {
                        if u < 0x16EE {
                            if u < 0x13A0 {
                                if u < 0x1318 {
                                    (0x12C8 <= u && u <= 0x12D6) || (0x12D8 <= u && u <= 0x1310) || (0x1312 <= u && u <= 0x1315)
                                } else {
                                    (0x1318 <= u && u <= 0x135A) || (0x135D <= u && u <= 0x135F) || (0x1380 <= u && u <= 0x138F)
                                }
                            } else {
                                if u < 0x166F {
                                    (0x13A0 <= u && u <= 0x13F5) || (0x13F8 <= u && u <= 0x13FD) || (0x1401 <= u && u <= 0x166C)
                                } else {
                                    (0x166F <= u && u <= 0x167F) || (0x1681 <= u && u <= 0x169A) || (0x16A0 <= u && u <= 0x16EA)
                                }
                            }
                        } else {
                            if u < 0x1772 {
                                if u < 0x1740 {
                                    (0x16EE <= u && u <= 0x16F8) || (0x1700 <= u && u <= 0x1715) || (0x171F <= u && u <= 0x1734)
                                } else {
                                    (0x1740 <= u && u <= 0x1753) || (0x1760 <= u && u <= 0x176C) || (0x176E <= u && u <= 0x1770)
                                }
                            } else {
                                if u < 0x17DC {
                                    (0x1772 <= u && u <= 0x1773) || (0x1780 <= u && u <= 0x17D3) || u == 0x17D7
                                } else {
                                    (0x17DC <= u && u <= 0x17DD) || (0x17E0 <= u && u <= 0x17E9) || (0x180B <= u && u <= 0x180D) || (0x180F <= u && u <= 0x1819)
                                }
                            }
                        }
                    }
                } else {
                    if u < 0x1C80 {
                        if u < 0x1A20 {
                            if u < 0x1946 {
                                if u < 0x1900 {
                                    (0x1820 <= u && u <= 0x1878) || (0x1880 <= u && u <= 0x18AA) || (0x18B0 <= u && u <= 0x18F5)
                                } else {
                                    (0x1900 <= u && u <= 0x191E) || (0x1920 <= u && u <= 0x192B) || (0x1930 <= u && u <= 0x193B)
                                }
                            } else {
                                if u < 0x19B0 {
                                    (0x1946 <= u && u <= 0x196D) || (0x1970 <= u && u <= 0x1974) || (0x1980 <= u && u <= 0x19AB)
                                } else {
                                    (0x19B0 <= u && u <= 0x19C9) || (0x19D0 <= u && u <= 0x19D9) || (0x1A00 <= u && u <= 0x1A1B)
                                }
                            }
                        } else {
                            if u < 0x1B00 {
                                if u < 0x1A90 {
                                    (0x1A20 <= u && u <= 0x1A5E) || (0x1A60 <= u && u <= 0x1A7C) || (0x1A7F <= u && u <= 0x1A89)
                                } else {
                                    (0x1A90 <= u && u <= 0x1A99) || u == 0x1AA7 || (0x1AB0 <= u && u <= 0x1ACE)
                                }
                            } else {
                                if u < 0x1B80 {
                                    (0x1B00 <= u && u <= 0x1B4C) || (0x1B50 <= u && u <= 0x1B59) || (0x1B6B <= u && u <= 0x1B73)
                                } else {
                                    (0x1B80 <= u && u <= 0x1BF3) || (0x1C00 <= u && u <= 0x1C37) || (0x1C40 <= u && u <= 0x1C49) || (0x1C4D <= u && u <= 0x1C7D)
                                }
                            }
                        }
                    } else {
                        if u < 0x1F5D {
                            if u < 0x1F18 {
                                if u < 0x1CD0 {
                                    (0x1C80 <= u && u <= 0x1C8A) || (0x1C90 <= u && u <= 0x1CBA) || (0x1CBD <= u && u <= 0x1CBF)
                                } else {
                                    (0x1CD0 <= u && u <= 0x1CD2) || (0x1CD4 <= u && u <= 0x1CFA) || (0x1D00 <= u && u <= 0x1F15)
                                }
                            } else {
                                if u < 0x1F50 {
                                    (0x1F18 <= u && u <= 0x1F1D) || (0x1F20 <= u && u <= 0x1F45) || (0x1F48 <= u && u <= 0x1F4D)
                                } else {
                                    (0x1F50 <= u && u <= 0x1F57) || u == 0x1F59 || u == 0x1F5B
                                }
                            }
                        } else {
                            if u < 0x1FC6 {
                                if u < 0x1FB6 {
                                    u == 0x1F5D || (0x1F5F <= u && u <= 0x1F7D) || (0x1F80 <= u && u <= 0x1FB4)
                                } else {
                                    (0x1FB6 <= u && u <= 0x1FBC) || u == 0x1FBE || (0x1FC2 <= u && u <= 0x1FC4)
                                }
                            } else {
                                if u < 0x1FE0 {
                                    (0x1FC6 <= u && u <= 0x1FCC) || (0x1FD0 <= u && u <= 0x1FD3) || (0x1FD6 <= u && u <= 0x1FDB)
                                } else {
                                    (0x1FE0 <= u && u <= 0x1FEC) || (0x1FF2 <= u && u <= 0x1FF4) || (0x1FF6 <= u && u <= 0x1FFC) || (0x200C <= u && u <= 0x200D)
                                }
                            }
                        }
                    }
                }
            } else {
                if u < 0x31A0 {
                    if u < 0x2D2D {
                        if u < 0x2126 {
                            if u < 0x2102 {
                                if u < 0x207F {
                                    (0x203F <= u && u <= 0x2040) || u == 0x2054 || u == 0x2071
                                } else {
                                    u == 0x207F || (0x2090 <= u && u <= 0x209C) || (0x20D0 <= u && u <= 0x20F0)
                                }
                            } else {
                                if u < 0x2115 {
                                    u == 0x2102 || u == 0x2107 || (0x210A <= u && u <= 0x2113)
                                } else {
                                    u == 0x2115 || (0x2119 <= u && u <= 0x211D) || u == 0x2124
                                }
                            }
                        } else {
                            if u < 0x214E {
                                if u < 0x212F {
                                    u == 0x2126 || u == 0x2128 || (0x212A <= u && u <= 0x212D)
                                } else {
                                    (0x212F <= u && u <= 0x2139) || (0x213C <= u && u <= 0x213F) || (0x2145 <= u && u <= 0x2149)
                                }
                            } else {
                                if u < 0x2C00 {
                                    u == 0x214E || (0x2160 <= u && u <= 0x2188) || (0x24B6 <= u && u <= 0x24E9)
                                } else {
                                    (0x2C00 <= u && u <= 0x2CE4) || (0x2CEB <= u && u <= 0x2CF3) || (0x2D00 <= u && u <= 0x2D25) || u == 0x2D27
                                }
                            }
                        }
                    } else {
                        if u < 0x2DE0 {
                            if u < 0x2DB0 {
                                if u < 0x2D7F {
                                    u == 0x2D2D || (0x2D30 <= u && u <= 0x2D67) || u == 0x2D6F
                                } else {
                                    (0x2D7F <= u && u <= 0x2D96) || (0x2DA0 <= u && u <= 0x2DA6) || (0x2DA8 <= u && u <= 0x2DAE)
                                }
                            } else {
                                if u < 0x2DC8 {
                                    (0x2DB0 <= u && u <= 0x2DB6) || (0x2DB8 <= u && u <= 0x2DBE) || (0x2DC0 <= u && u <= 0x2DC6)
                                } else {
                                    (0x2DC8 <= u && u <= 0x2DCE) || (0x2DD0 <= u && u <= 0x2DD6) || (0x2DD8 <= u && u <= 0x2DDE)
                                }
                            }
                        } else {
                            if u < 0x3041 {
                                if u < 0x3021 {
                                    (0x2DE0 <= u && u <= 0x2DFF) || u == 0x2E2F || (0x3005 <= u && u <= 0x3007)
                                } else {
                                    (0x3021 <= u && u <= 0x302F) || (0x3031 <= u && u <= 0x3035) || (0x3038 <= u && u <= 0x303C)
                                }
                            } else {
                                if u < 0x30A1 {
                                    (0x3041 <= u && u <= 0x3096) || (0x3099 <= u && u <= 0x309A) || (0x309D <= u && u <= 0x309F)
                                } else {
                                    (0x30A1 <= u && u <= 0x30FA) || (0x30FC <= u && u <= 0x30FF) || (0x3105 <= u && u <= 0x312F) || (0x3131 <= u && u <= 0x318E)
                                }
                            }
                        }
                    }
                } else {
                    if u < 0xA960 {
                        if u < 0xA78B {
                            if u < 0xA610 {
                                if u < 0x4E00 {
                                    (0x31A0 <= u && u <= 0x31BF) || (0x31F0 <= u && u <= 0x31FF) || (0x3400 <= u && u <= 0x4DBF)
                                } else {
                                    (0x4E00 <= u && u <= 0xA48C) || (0xA4D0 <= u && u <= 0xA4FD) || (0xA500 <= u && u <= 0xA60C)
                                }
                            } else {
                                if u < 0xA67F {
                                    (0xA610 <= u && u <= 0xA62B) || (0xA640 <= u && u <= 0xA672) || (0xA674 <= u && u <= 0xA67D)
                                } else {
                                    (0xA67F <= u && u <= 0xA6F1) || (0xA717 <= u && u <= 0xA71F) || (0xA722 <= u && u <= 0xA788)
                                }
                            }
                        } else {
                            if u < 0xA840 {
                                if u < 0xA7D5 {
                                    (0xA78B <= u && u <= 0xA7CD) || (0xA7D0 <= u && u <= 0xA7D1) || u == 0xA7D3
                                } else {
                                    (0xA7D5 <= u && u <= 0xA7DC) || (0xA7F2 <= u && u <= 0xA827) || u == 0xA82C
                                }
                            } else {
                                if u < 0xA8E0 {
                                    (0xA840 <= u && u <= 0xA873) || (0xA880 <= u && u <= 0xA8C5) || (0xA8D0 <= u && u <= 0xA8D9)
                                } else {
                                    (0xA8E0 <= u && u <= 0xA8F7) || u == 0xA8FB || (0xA8FD <= u && u <= 0xA92D) || (0xA930 <= u && u <= 0xA953)
                                }
                            }
                        }
                    } else {
                        if u < 0xAB01 {
                            if u < 0xAA50 {
                                if u < 0xA9E0 {
                                    (0xA960 <= u && u <= 0xA97C) || (0xA980 <= u && u <= 0xA9C0) || (0xA9CF <= u && u <= 0xA9D9)
                                } else {
                                    (0xA9E0 <= u && u <= 0xA9FE) || (0xAA00 <= u && u <= 0xAA36) || (0xAA40 <= u && u <= 0xAA4D)
                                }
                            } else {
                                if u < 0xAADB {
                                    (0xAA50 <= u && u <= 0xAA59) || (0xAA60 <= u && u <= 0xAA76) || (0xAA7A <= u && u <= 0xAAC2)
                                } else {
                                    (0xAADB <= u && u <= 0xAADD) || (0xAAE0 <= u && u <= 0xAAEF) || (0xAAF2 <= u && u <= 0xAAF6)
                                }
                            }
                        } else {
                            if u < 0xAB5C {
                                if u < 0xAB20 {
                                    (0xAB01 <= u && u <= 0xAB06) || (0xAB09 <= u && u <= 0xAB0E) || (0xAB11 <= u && u <= 0xAB16)
                                } else {
                                    (0xAB20 <= u && u <= 0xAB26) || (0xAB28 <= u && u <= 0xAB2E) || (0xAB30 <= u && u <= 0xAB5A)
                                }
                            } else {
                                if u < 0xABF0 {
                                    (0xAB5C <= u && u <= 0xAB69) || (0xAB70 <= u && u <= 0xABEA) || (0xABEC <= u && u <= 0xABED)
                                } else {
                                    (0xABF0 <= u && u <= 0xABF9) || (0xAC00 <= u && u <= 0xD7A3) || (0xD7B0 <= u && u <= 0xD7C6) || (0xD7CB <= u && u <= 0xD7FB)
                                }
                            }
                        }
                    }
                }
            }
        }
    } else {
        if u < 0x119E3 {
            if u < 0x10C00 {
                if u < 0x10400 {
                    if u < 0xFF41 {
                        if u < 0xFD50 {
                            if u < 0xFB38 {
                                if u < 0xFB13 {
                                    (0xF900 <= u && u <= 0xFA6D) || (0xFA70 <= u && u <= 0xFAD9) || (0xFB00 <= u && u <= 0xFB06)
                                } else {
                                    (0xFB13 <= u && u <= 0xFB17) || (0xFB1D <= u && u <= 0xFB28) || (0xFB2A <= u && u <= 0xFB36)
                                }
                            } else {
                                if u < 0xFB43 {
                                    (0xFB38 <= u && u <= 0xFB3C) || u == 0xFB3E || (0xFB40 <= u && u <= 0xFB41)
                                } else {
                                    (0xFB43 <= u && u <= 0xFB44) || (0xFB46 <= u && u <= 0xFBB1) || (0xFBD3 <= u && u <= 0xFD3D)
                                }
                            }
                        } else {
                            if u < 0xFE4D {
                                if u < 0xFE00 {
                                    (0xFD50 <= u && u <= 0xFD8F) || (0xFD92 <= u && u <= 0xFDC7) || (0xFDF0 <= u && u <= 0xFDFB)
                                } else {
                                    (0xFE00 <= u && u <= 0xFE0F) || (0xFE20 <= u && u <= 0xFE2F) || (0xFE33 <= u && u <= 0xFE34)
                                }
                            } else {
                                if u < 0xFF10 {
                                    (0xFE4D <= u && u <= 0xFE4F) || (0xFE70 <= u && u <= 0xFE74) || (0xFE76 <= u && u <= 0xFEFC)
                                } else {
                                    (0xFF10 <= u && u <= 0xFF19) || (0xFF21 <= u && u <= 0xFF3A) || u == 0xFF3F
                                }
                            }
                        }
                    } else {
                        if u < 0x10080 {
                            if u < 0x10000 {
                                if u < 0xFFCA {
                                    (0xFF41 <= u && u <= 0xFF5A) || (0xFF66 <= u && u <= 0xFFBE) || (0xFFC2 <= u && u <= 0xFFC7)
                                } else {
                                    (0xFFCA <= u && u <= 0xFFCF) || (0xFFD2 <= u && u <= 0xFFD7) || (0xFFDA <= u && u <= 0xFFDC)
                                }
                            } else {
                                if u < 0x1003C {
                                    (0x10000 <= u && u <= 0x1000B) || (0x1000D <= u && u <= 0x10026) || (0x10028 <= u && u <= 0x1003A)
                                } else {
                                    (0x1003C <= u && u <= 0x1003D) || (0x1003F <= u && u <= 0x1004D) || (0x10050 <= u && u <= 0x1005D)
                                }
                            }
                        } else {
                            if u < 0x10300 {
                                if u < 0x10280 {
                                    (0x10080 <= u && u <= 0x100FA) || (0x10140 <= u && u <= 0x10174) || u == 0x101FD
                                } else {
                                    (0x10280 <= u && u <= 0x1029C) || (0x102A0 <= u && u <= 0x102D0) || u == 0x102E0
                                }
                            } else {
                                if u < 0x10380 {
                                    (0x10300 <= u && u <= 0x1031F) || (0x1032D <= u && u <= 0x1034A) || (0x10350 <= u && u <= 0x1037A)
                                } else {
                                    (0x10380 <= u && u <= 0x1039D) || (0x103A0 <= u && u <= 0x103C3) || (0x103C8 <= u && u <= 0x103CF) || (0x103D1 <= u && u <= 0x103D5)
                                }
                            }
                        }
                    }
                } else {
                    if u < 0x1083C {
                        if u < 0x105B3 {
                            if u < 0x10570 {
                                if u < 0x104D8 {
                                    (0x10400 <= u && u <= 0x1049D) || (0x104A0 <= u && u <= 0x104A9) || (0x104B0 <= u && u <= 0x104D3)
                                } else {
                                    (0x104D8 <= u && u <= 0x104FB) || (0x10500 <= u && u <= 0x10527) || (0x10530 <= u && u <= 0x10563)
                                }
                            } else {
                                if u < 0x10594 {
                                    (0x10570 <= u && u <= 0x1057A) || (0x1057C <= u && u <= 0x1058A) || (0x1058C <= u && u <= 0x10592)
                                } else {
                                    (0x10594 <= u && u <= 0x10595) || (0x10597 <= u && u <= 0x105A1) || (0x105A3 <= u && u <= 0x105B1)
                                }
                            }
                        } else {
                            if u < 0x10780 {
                                if u < 0x10600 {
                                    (0x105B3 <= u && u <= 0x105B9) || (0x105BB <= u && u <= 0x105BC) || (0x105C0 <= u && u <= 0x105F3)
                                } else {
                                    (0x10600 <= u && u <= 0x10736) || (0x10740 <= u && u <= 0x10755) || (0x10760 <= u && u <= 0x10767)
                                }
                            } else {
                                if u < 0x10800 {
                                    (0x10780 <= u && u <= 0x10785) || (0x10787 <= u && u <= 0x107B0) || (0x107B2 <= u && u <= 0x107BA)
                                } else {
                                    (0x10800 <= u && u <= 0x10805) || u == 0x10808 || (0x1080A <= u && u <= 0x10835) || (0x10837 <= u && u <= 0x10838)
                                }
                            }
                        }
                    } else {
                        if u < 0x10A0C {
                            if u < 0x10900 {
                                if u < 0x10880 {
                                    u == 0x1083C || (0x1083F <= u && u <= 0x10855) || (0x10860 <= u && u <= 0x10876)
                                } else {
                                    (0x10880 <= u && u <= 0x1089E) || (0x108E0 <= u && u <= 0x108F2) || (0x108F4 <= u && u <= 0x108F5)
                                }
                            } else {
                                if u < 0x109BE {
                                    (0x10900 <= u && u <= 0x10915) || (0x10920 <= u && u <= 0x10939) || (0x10980 <= u && u <= 0x109B7)
                                } else {
                                    (0x109BE <= u && u <= 0x109BF) || (0x10A00 <= u && u <= 0x10A03) || (0x10A05 <= u && u <= 0x10A06)
                                }
                            }
                        } else {
                            if u < 0x10A80 {
                                if u < 0x10A38 {
                                    (0x10A0C <= u && u <= 0x10A13) || (0x10A15 <= u && u <= 0x10A17) || (0x10A19 <= u && u <= 0x10A35)
                                } else {
                                    (0x10A38 <= u && u <= 0x10A3A) || u == 0x10A3F || (0x10A60 <= u && u <= 0x10A7C)
                                }
                            } else {
                                if u < 0x10B00 {
                                    (0x10A80 <= u && u <= 0x10A9C) || (0x10AC0 <= u && u <= 0x10AC7) || (0x10AC9 <= u && u <= 0x10AE6)
                                } else {
                                    (0x10B00 <= u && u <= 0x10B35) || (0x10B40 <= u && u <= 0x10B55) || (0x10B60 <= u && u <= 0x10B72) || (0x10B80 <= u && u <= 0x10B91)
                                }
                            }
                        }
                    }
                }
            } else {
                if u < 0x1133B {
                    if u < 0x11136 {
                        if u < 0x10EFC {
                            if u < 0x10D69 {
                                if u < 0x10D00 {
                                    (0x10C00 <= u && u <= 0x10C48) || (0x10C80 <= u && u <= 0x10CB2) || (0x10CC0 <= u && u <= 0x10CF2)
                                } else {
                                    (0x10D00 <= u && u <= 0x10D27) || (0x10D30 <= u && u <= 0x10D39) || (0x10D40 <= u && u <= 0x10D65)
                                }
                            } else {
                                if u < 0x10EAB {
                                    (0x10D69 <= u && u <= 0x10D6D) || (0x10D6F <= u && u <= 0x10D85) || (0x10E80 <= u && u <= 0x10EA9)
                                } else {
                                    (0x10EAB <= u && u <= 0x10EAC) || (0x10EB0 <= u && u <= 0x10EB1) || (0x10EC2 <= u && u <= 0x10EC4)
                                }
                            }
                        } else {
                            if u < 0x11000 {
                                if u < 0x10F70 {
                                    (0x10EFC <= u && u <= 0x10F1C) || u == 0x10F27 || (0x10F30 <= u && u <= 0x10F50)
                                } else {
                                    (0x10F70 <= u && u <= 0x10F85) || (0x10FB0 <= u && u <= 0x10FC4) || (0x10FE0 <= u && u <= 0x10FF6)
                                }
                            } else {
                                if u < 0x110C2 {
                                    (0x11000 <= u && u <= 0x11046) || (0x11066 <= u && u <= 0x11075) || (0x1107F <= u && u <= 0x110BA)
                                } else {
                                    u == 0x110C2 || (0x110D0 <= u && u <= 0x110E8) || (0x110F0 <= u && u <= 0x110F9) || (0x11100 <= u && u <= 0x11134)
                                }
                            }
                        }
                    } else {
                        if u < 0x11288 {
                            if u < 0x111CE {
                                if u < 0x11176 {
                                    (0x11136 <= u && u <= 0x1113F) || (0x11144 <= u && u <= 0x11147) || (0x11150 <= u && u <= 0x11173)
                                } else {
                                    u == 0x11176 || (0x11180 <= u && u <= 0x111C4) || (0x111C9 <= u && u <= 0x111CC)
                                }
                            } else {
                                if u < 0x11213 {
                                    (0x111CE <= u && u <= 0x111DA) || u == 0x111DC || (0x11200 <= u && u <= 0x11211)
                                } else {
                                    (0x11213 <= u && u <= 0x11237) || (0x1123E <= u && u <= 0x11241) || (0x11280 <= u && u <= 0x11286)
                                }
                            }
                        } else {
                            if u < 0x11300 {
                                if u < 0x1129F {
                                    u == 0x11288 || (0x1128A <= u && u <= 0x1128D) || (0x1128F <= u && u <= 0x1129D)
                                } else {
                                    (0x1129F <= u && u <= 0x112A8) || (0x112B0 <= u && u <= 0x112EA) || (0x112F0 <= u && u <= 0x112F9)
                                }
                            } else {
                                if u < 0x11313 {
                                    (0x11300 <= u && u <= 0x11303) || (0x11305 <= u && u <= 0x1130C) || (0x1130F <= u && u <= 0x11310)
                                } else {
                                    (0x11313 <= u && u <= 0x11328) || (0x1132A <= u && u <= 0x11330) || (0x11332 <= u && u <= 0x11333) || (0x11335 <= u && u <= 0x11339)
                                }
                            }
                        }
                    }
                } else {
                    if u < 0x115B8 {
                        if u < 0x113B7 {
                            if u < 0x11366 {
                                if u < 0x11350 {
                                    (0x1133B <= u && u <= 0x11344) || (0x11347 <= u && u <= 0x11348) || (0x1134B <= u && u <= 0x1134D)
                                } else {
                                    u == 0x11350 || u == 0x11357 || (0x1135D <= u && u <= 0x11363)
                                }
                            } else {
                                if u < 0x1138B {
                                    (0x11366 <= u && u <= 0x1136C) || (0x11370 <= u && u <= 0x11374) || (0x11380 <= u && u <= 0x11389)
                                } else {
                                    u == 0x1138B || u == 0x1138E || (0x11390 <= u && u <= 0x113B5)
                                }
                            }
                        } else {
                            if u < 0x11400 {
                                if u < 0x113C7 {
                                    (0x113B7 <= u && u <= 0x113C0) || u == 0x113C2 || u == 0x113C5
                                } else {
                                    (0x113C7 <= u && u <= 0x113CA) || (0x113CC <= u && u <= 0x113D3) || (0x113E1 <= u && u <= 0x113E2)
                                }
                            } else {
                                if u < 0x11480 {
                                    (0x11400 <= u && u <= 0x1144A) || (0x11450 <= u && u <= 0x11459) || (0x1145E <= u && u <= 0x11461)
                                } else {
                                    (0x11480 <= u && u <= 0x114C5) || u == 0x114C7 || (0x114D0 <= u && u <= 0x114D9) || (0x11580 <= u && u <= 0x115B5)
                                }
                            }
                        }
                    } else {
                        if u < 0x11800 {
                            if u < 0x116C0 {
                                if u < 0x11644 {
                                    (0x115B8 <= u && u <= 0x115C0) || (0x115D8 <= u && u <= 0x115DD) || (0x11600 <= u && u <= 0x11640)
                                } else {
                                    u == 0x11644 || (0x11650 <= u && u <= 0x11659) || (0x11680 <= u && u <= 0x116B8)
                                }
                            } else {
                                if u < 0x1171D {
                                    (0x116C0 <= u && u <= 0x116C9) || (0x116D0 <= u && u <= 0x116E3) || (0x11700 <= u && u <= 0x1171A)
                                } else {
                                    (0x1171D <= u && u <= 0x1172B) || (0x11730 <= u && u <= 0x11739) || (0x11740 <= u && u <= 0x11746)
                                }
                            }
                        } else {
                            if u < 0x11918 {
                                if u < 0x11909 {
                                    (0x11800 <= u && u <= 0x1183A) || (0x118A0 <= u && u <= 0x118E9) || (0x118FF <= u && u <= 0x11906)
                                } else {
                                    u == 0x11909 || (0x1190C <= u && u <= 0x11913) || (0x11915 <= u && u <= 0x11916)
                                }
                            } else {
                                if u < 0x11950 {
                                    (0x11918 <= u && u <= 0x11935) || (0x11937 <= u && u <= 0x11938) || (0x1193B <= u && u <= 0x11943)
                                } else {
                                    (0x11950 <= u && u <= 0x11959) || (0x119A0 <= u && u <= 0x119A7) || (0x119AA <= u && u <= 0x119D7) || (0x119DA <= u && u <= 0x119E1)
                                }
                            }
                        }
                    }
                }
            }
        } else {
            if u < 0x1D4C5 {
                if u < 0x16AF0 {
                    if u < 0x11D6A {
                        if u < 0x11C72 {
                            if u < 0x11BC0 {
                                if u < 0x11A50 {
                                    (0x119E3 <= u && u <= 0x119E4) || (0x11A00 <= u && u <= 0x11A3E) || u == 0x11A47
                                } else {
                                    (0x11A50 <= u && u <= 0x11A99) || u == 0x11A9D || (0x11AB0 <= u && u <= 0x11AF8)
                                }
                            } else {
                                if u < 0x11C0A {
                                    (0x11BC0 <= u && u <= 0x11BE0) || (0x11BF0 <= u && u <= 0x11BF9) || (0x11C00 <= u && u <= 0x11C08)
                                } else {
                                    (0x11C0A <= u && u <= 0x11C36) || (0x11C38 <= u && u <= 0x11C40) || (0x11C50 <= u && u <= 0x11C59)
                                }
                            }
                        } else {
                            if u < 0x11D3A {
                                if u < 0x11D00 {
                                    (0x11C72 <= u && u <= 0x11C8F) || (0x11C92 <= u && u <= 0x11CA7) || (0x11CA9 <= u && u <= 0x11CB6)
                                } else {
                                    (0x11D00 <= u && u <= 0x11D06) || (0x11D08 <= u && u <= 0x11D09) || (0x11D0B <= u && u <= 0x11D36)
                                }
                            } else {
                                if u < 0x11D50 {
                                    u == 0x11D3A || (0x11D3C <= u && u <= 0x11D3D) || (0x11D3F <= u && u <= 0x11D47)
                                } else {
                                    (0x11D50 <= u && u <= 0x11D59) || (0x11D60 <= u && u <= 0x11D65) || (0x11D67 <= u && u <= 0x11D68)
                                }
                            }
                        }
                    } else {
                        if u < 0x12480 {
                            if u < 0x11F12 {
                                if u < 0x11DA0 {
                                    (0x11D6A <= u && u <= 0x11D8E) || (0x11D90 <= u && u <= 0x11D91) || (0x11D93 <= u && u <= 0x11D98)
                                } else {
                                    (0x11DA0 <= u && u <= 0x11DA9) || (0x11EE0 <= u && u <= 0x11EF6) || (0x11F00 <= u && u <= 0x11F10)
                                }
                            } else {
                                if u < 0x11FB0 {
                                    (0x11F12 <= u && u <= 0x11F3A) || (0x11F3E <= u && u <= 0x11F42) || (0x11F50 <= u && u <= 0x11F5A)
                                } else {
                                    u == 0x11FB0 || (0x12000 <= u && u <= 0x12399) || (0x12400 <= u && u <= 0x1246E)
                                }
                            }
                        } else {
                            if u < 0x16100 {
                                if u < 0x13440 {
                                    (0x12480 <= u && u <= 0x12543) || (0x12F90 <= u && u <= 0x12FF0) || (0x13000 <= u && u <= 0x1342F)
                                } else {
                                    (0x13440 <= u && u <= 0x13455) || (0x13460 <= u && u <= 0x143FA) || (0x14400 <= u && u <= 0x14646)
                                }
                            } else {
                                if u < 0x16A60 {
                                    (0x16100 <= u && u <= 0x16139) || (0x16800 <= u && u <= 0x16A38) || (0x16A40 <= u && u <= 0x16A5E)
                                } else {
                                    (0x16A60 <= u && u <= 0x16A69) || (0x16A70 <= u && u <= 0x16ABE) || (0x16AC0 <= u && u <= 0x16AC9) || (0x16AD0 <= u && u <= 0x16AED)
                                }
                            }
                        }
                    }
                } else {
                    if u < 0x1B164 {
                        if u < 0x16FE0 {
                            if u < 0x16D40 {
                                if u < 0x16B50 {
                                    (0x16AF0 <= u && u <= 0x16AF4) || (0x16B00 <= u && u <= 0x16B36) || (0x16B40 <= u && u <= 0x16B43)
                                } else {
                                    (0x16B50 <= u && u <= 0x16B59) || (0x16B63 <= u && u <= 0x16B77) || (0x16B7D <= u && u <= 0x16B8F)
                                }
                            } else {
                                if u < 0x16F00 {
                                    (0x16D40 <= u && u <= 0x16D6C) || (0x16D70 <= u && u <= 0x16D79) || (0x16E40 <= u && u <= 0x16E7F)
                                } else {
                                    (0x16F00 <= u && u <= 0x16F4A) || (0x16F4F <= u && u <= 0x16F87) || (0x16F8F <= u && u <= 0x16F9F)
                                }
                            }
                        } else {
                            if u < 0x1AFF0 {
                                if u < 0x17000 {
                                    (0x16FE0 <= u && u <= 0x16FE1) || (0x16FE3 <= u && u <= 0x16FE4) || (0x16FF0 <= u && u <= 0x16FF1)
                                } else {
                                    (0x17000 <= u && u <= 0x187F7) || (0x18800 <= u && u <= 0x18CD5) || (0x18CFF <= u && u <= 0x18D08)
                                }
                            } else {
                                if u < 0x1B000 {
                                    (0x1AFF0 <= u && u <= 0x1AFF3) || (0x1AFF5 <= u && u <= 0x1AFFB) || (0x1AFFD <= u && u <= 0x1AFFE)
                                } else {
                                    (0x1B000 <= u && u <= 0x1B122) || u == 0x1B132 || (0x1B150 <= u && u <= 0x1B152) || u == 0x1B155
                                }
                            }
                        }
                    } else {
                        if u < 0x1D17B {
                            if u < 0x1BC9D {
                                if u < 0x1BC70 {
                                    (0x1B164 <= u && u <= 0x1B167) || (0x1B170 <= u && u <= 0x1B2FB) || (0x1BC00 <= u && u <= 0x1BC6A)
                                } else {
                                    (0x1BC70 <= u && u <= 0x1BC7C) || (0x1BC80 <= u && u <= 0x1BC88) || (0x1BC90 <= u && u <= 0x1BC99)
                                }
                            } else {
                                if u < 0x1CF30 {
                                    (0x1BC9D <= u && u <= 0x1BC9E) || (0x1CCF0 <= u && u <= 0x1CCF9) || (0x1CF00 <= u && u <= 0x1CF2D)
                                } else {
                                    (0x1CF30 <= u && u <= 0x1CF46) || (0x1D165 <= u && u <= 0x1D169) || (0x1D16D <= u && u <= 0x1D172)
                                }
                            }
                        } else {
                            if u < 0x1D49E {
                                if u < 0x1D242 {
                                    (0x1D17B <= u && u <= 0x1D182) || (0x1D185 <= u && u <= 0x1D18B) || (0x1D1AA <= u && u <= 0x1D1AD)
                                } else {
                                    (0x1D242 <= u && u <= 0x1D244) || (0x1D400 <= u && u <= 0x1D454) || (0x1D456 <= u && u <= 0x1D49C)
                                }
                            } else {
                                if u < 0x1D4A9 {
                                    (0x1D49E <= u && u <= 0x1D49F) || u == 0x1D4A2 || (0x1D4A5 <= u && u <= 0x1D4A6)
                                } else {
                                    (0x1D4A9 <= u && u <= 0x1D4AC) || (0x1D4AE <= u && u <= 0x1D4B9) || u == 0x1D4BB || (0x1D4BD <= u && u <= 0x1D4C3)
                                }
                            }
                        }
                    }
                }
            } else {
                if u < 0x1E8D0 {
                    if u < 0x1DA84 {
                        if u < 0x1D6DC {
                            if u < 0x1D540 {
                                if u < 0x1D516 {
                                    (0x1D4C5 <= u && u <= 0x1D505) || (0x1D507 <= u && u <= 0x1D50A) || (0x1D50D <= u && u <= 0x1D514)
                                } else {
                                    (0x1D516 <= u && u <= 0x1D51C) || (0x1D51E <= u && u <= 0x1D539) || (0x1D53B <= u && u <= 0x1D53E)
                                }
                            } else {
                                if u < 0x1D552 {
                                    (0x1D540 <= u && u <= 0x1D544) || u == 0x1D546 || (0x1D54A <= u && u <= 0x1D550)
                                } else {
                                    (0x1D552 <= u && u <= 0x1D6A5) || (0x1D6A8 <= u && u <= 0x1D6C0) || (0x1D6C2 <= u && u <= 0x1D6DA)
                                }
                            }
                        } else {
                            if u < 0x1D78A {
                                if u < 0x1D736 {
                                    (0x1D6DC <= u && u <= 0x1D6FA) || (0x1D6FC <= u && u <= 0x1D714) || (0x1D716 <= u && u <= 0x1D734)
                                } else {
                                    (0x1D736 <= u && u <= 0x1D74E) || (0x1D750 <= u && u <= 0x1D76E) || (0x1D770 <= u && u <= 0x1D788)
                                }
                            } else {
                                if u < 0x1D7CE {
                                    (0x1D78A <= u && u <= 0x1D7A8) || (0x1D7AA <= u && u <= 0x1D7C2) || (0x1D7C4 <= u && u <= 0x1D7CB)
                                } else {
                                    (0x1D7CE <= u && u <= 0x1D7FF) || (0x1DA00 <= u && u <= 0x1DA36) || (0x1DA3B <= u && u <= 0x1DA6C) || u == 0x1DA75
                                }
                            }
                        }
                    } else {
                        if u < 0x1E100 {
                            if u < 0x1E008 {
                                if u < 0x1DF00 {
                                    u == 0x1DA84 || (0x1DA9B <= u && u <= 0x1DA9F) || (0x1DAA1 <= u && u <= 0x1DAAF)
                                } else {
                                    (0x1DF00 <= u && u <= 0x1DF1E) || (0x1DF25 <= u && u <= 0x1DF2A) || (0x1E000 <= u && u <= 0x1E006)
                                }
                            } else {
                                if u < 0x1E026 {
                                    (0x1E008 <= u && u <= 0x1E018) || (0x1E01B <= u && u <= 0x1E021) || (0x1E023 <= u && u <= 0x1E024)
                                } else {
                                    (0x1E026 <= u && u <= 0x1E02A) || (0x1E030 <= u && u <= 0x1E06D) || u == 0x1E08F
                                }
                            }
                        } else {
                            if u < 0x1E4D0 {
                                if u < 0x1E14E {
                                    (0x1E100 <= u && u <= 0x1E12C) || (0x1E130 <= u && u <= 0x1E13D) || (0x1E140 <= u && u <= 0x1E149)
                                } else {
                                    u == 0x1E14E || (0x1E290 <= u && u <= 0x1E2AE) || (0x1E2C0 <= u && u <= 0x1E2F9)
                                }
                            } else {
                                if u < 0x1E7E8 {
                                    (0x1E4D0 <= u && u <= 0x1E4F9) || (0x1E5D0 <= u && u <= 0x1E5FA) || (0x1E7E0 <= u && u <= 0x1E7E6)
                                } else {
                                    (0x1E7E8 <= u && u <= 0x1E7EB) || (0x1E7ED <= u && u <= 0x1E7EE) || (0x1E7F0 <= u && u <= 0x1E7FE) || (0x1E800 <= u && u <= 0x1E8C4)
                                }
                            }
                        }
                    }
                } else {
                    if u < 0x1EE64 {
                        if u < 0x1EE42 {
                            if u < 0x1EE24 {
                                if u < 0x1EE00 {
                                    (0x1E8D0 <= u && u <= 0x1E8D6) || (0x1E900 <= u && u <= 0x1E94B) || (0x1E950 <= u && u <= 0x1E959)
                                } else {
                                    (0x1EE00 <= u && u <= 0x1EE03) || (0x1EE05 <= u && u <= 0x1EE1F) || (0x1EE21 <= u && u <= 0x1EE22)
                                }
                            } else {
                                if u < 0x1EE34 {
                                    u == 0x1EE24 || u == 0x1EE27 || (0x1EE29 <= u && u <= 0x1EE32)
                                } else {
                                    (0x1EE34 <= u && u <= 0x1EE37) || u == 0x1EE39 || u == 0x1EE3B
                                }
                            }
                        } else {
                            if u < 0x1EE54 {
                                if u < 0x1EE4B {
                                    u == 0x1EE42 || u == 0x1EE47 || u == 0x1EE49
                                } else {
                                    u == 0x1EE4B || (0x1EE4D <= u && u <= 0x1EE4F) || (0x1EE51 <= u && u <= 0x1EE52)
                                }
                            } else {
                                if u < 0x1EE5B {
                                    u == 0x1EE54 || u == 0x1EE57 || u == 0x1EE59
                                } else {
                                    u == 0x1EE5B || u == 0x1EE5D || u == 0x1EE5F || (0x1EE61 <= u && u <= 0x1EE62)
                                }
                            }
                        }
                    } else {
                        if u < 0x1F150 {
                            if u < 0x1EE80 {
                                if u < 0x1EE74 {
                                    u == 0x1EE64 || (0x1EE67 <= u && u <= 0x1EE6A) || (0x1EE6C <= u && u <= 0x1EE72)
                                } else {
                                    (0x1EE74 <= u && u <= 0x1EE77) || (0x1EE79 <= u && u <= 0x1EE7C) || u == 0x1EE7E
                                }
                            } else {
                                if u < 0x1EEA5 {
                                    (0x1EE80 <= u && u <= 0x1EE89) || (0x1EE8B <= u && u <= 0x1EE9B) || (0x1EEA1 <= u && u <= 0x1EEA3)
                                } else {
                                    (0x1EEA5 <= u && u <= 0x1EEA9) || (0x1EEAB <= u && u <= 0x1EEBB) || (0x1F130 <= u && u <= 0x1F149)
                                }
                            }
                        } else {
                            if u < 0x2B820 {
                                if u < 0x20000 {
                                    (0x1F150 <= u && u <= 0x1F169) || (0x1F170 <= u && u <= 0x1F189) || (0x1FBF0 <= u && u <= 0x1FBF9)
                                } else {
                                    (0x20000 <= u && u <= 0x2A6DF) || (0x2A700 <= u && u <= 0x2B739) || (0x2B740 <= u && u <= 0x2B81D)
                                }
                            } else {
                                if u < 0x2F800 {
                                    (0x2B820 <= u && u <= 0x2CEA1) || (0x2CEB0 <= u && u <= 0x2EBE0) || (0x2EBF0 <= u && u <= 0x2EE5D)
                                } else {
                                    (0x2F800 <= u && u <= 0x2FA1D) || (0x30000 <= u && u <= 0x3134A) || (0x31350 <= u && u <= 0x323AF) || (0xE0100 <= u && u <= 0xE01EF)
                                }
                            }
                        }
                    }
                }
            }
        }
    }
}

/// Decides `is_word_char`.
pub fn word_char(c: char) -> (r: bool)
    ensures
        r == is_word_char(c),
{
    reveal(is_word_char);
    let u = c as u32;
    if u < 0xF900 {
        if u < 0xF3E {
            if u < 0xAE6 {
                if u < 0x860 {
                    if u < 0x483 {
                        if u < 0x2EC {
                            if u < 0xBA {
                                if u < 0x61 {
                                    (0x30 <= u && u <= 0x39) || (0x41 <= u && u <= 0x5A) || u == 0x5F
                                } else {
                                    (0x61 <= u && u <= 0x7A) || u == 0xAA || u == 0xB5
                                }
                            } else {
                                if u < 0xF8 {
                                    u == 0xBA || (0xC0 <= u && u <= 0xD6) || (0xD8 <= u && u <= 0xF6)
                                } else {
                                    (0xF8 <= u && u <= 0x2C1) || (0x2C6 <= u && u <= 0x2D1) || (0x2E0 <= u && u <= 0x2E4)
                                }
                            }
                        } else {
                            if u < 0x386 {
                                if u < 0x376 {
                                    u == 0x2EC || u == 0x2EE || (0x300 <= u && u <= 0x374)
                                } else {
                                    (0x376 <= u && u <= 0x377) || (0x37A <= u && u <= 0x37D) || u == 0x37F
                                }
                            } else {
                                if u < 0x38E {
                                    u == 0x386 || (0x388 <= u && u <= 0x38A) || u == 0x38C
                                } else {
                                    (0x38E <= u && u <= 0x3A1) || (0x3A3 <= u && u <= 0x3F5) || (0x3F7 <= u && u <= 0x481)
                                }
                            }
                        }
                    } else {
                        if u < 0x620 {
                            if u < 0x5C1 {
                                if u < 0x560 {
                                    (0x483 <= u && u <= 0x52F) || (0x531 <= u && u <= 0x556) || u == 0x559
                                } else {
                                    (0x560 <= u && u <= 0x588) || (0x591 <= u && u <= 0x5BD) || u == 0x5BF
                                }
                            } else {
                                if u < 0x5D0 {
                                    (0x5C1 <= u && u <= 0x5C2) || (0x5C4 <= u && u <= 0x5C5) || u == 0x5C7
                                } else {
                                    (0x5D0 <= u && u <= 0x5EA) || (0x5EF <= u && u <= 0x5F2) || (0x610 <= u && u <= 0x61A)
                                }
                            }
                        } else {
                            if u < 0x710 {
                                if u < 0x6DF {
                                    (0x620 <= u && u <= 0x669) || (0x66E <= u && u <= 0x6D3) || (0x6D5 <= u && u <= 0x6DC)
                                } else {
                                    (0x6DF <= u && u <= 0x6E8) || (0x6EA <= u && u <= 0x6FC) || u == 0x6FF
                                }
                            } else {
                                if u < 0x7FA {
                                    (0x710 <= u && u <= 0x74A) || (0x74D <= u && u <= 0x7B1) || (0x7C0 <= u && u <= 0x7F5)
                                } else {
                                    u == 0x7FA || u == 0x7FD || (0x800 <= u && u <= 0x82D) || (0x840 <= u && u <= 0x85B)
                                }
                            }
                        }
                    }
                } else {
                    if u < 0xA13 {
                        if u < 0x9B6 {
                            if u < 0x971 {
                                if u < 0x897 {
                                    (0x860 <= u && u <= 0x86A) || (0x870 <= u && u <= 0x887) || (0x889 <= u && u <= 0x88E)
                                } else {
                                    (0x897 <= u && u <= 0x8E1) || (0x8E3 <= u && u <= 0x963) || (0x966 <= u && u <= 0x96F)
                                }
                            } else {
                                if u < 0x993 {
                                    (0x971 <= u && u <= 0x983) || (0x985 <= u && u <= 0x98C) || (0x98F <= u && u <= 0x990)
                                } else {
                                    (0x993 <= u && u <= 0x9A8) || (0x9AA <= u && u <= 0x9B0) || u == 0x9B2
                                }
                            }
                        } else {
                            if u < 0x9DF {
                                if u < 0x9CB {
                                    (0x9B6 <= u && u <= 0x9B9) || (0x9BC <= u && u <= 0x9C4) || (0x9C7 <= u && u <= 0x9C8)
                                } else {
                                    (0x9CB <= u && u <= 0x9CE) || u == 0x9D7 || (0x9DC <= u && u <= 0x9DD)
                                }
                            } else {
                                if u < 0x9FE {
                                    (0x9DF <= u && u <= 0x9E3) || (0x9E6 <= u && u <= 0x9F1) || u == 0x9FC
                                } else {
                                    u == 0x9FE || (0xA01 <= u && u <= 0xA03) || (0xA05 <= u && u <= 0xA0A) || (0xA0F <= u && u <= 0xA10)
                                }
                            }
                        }
                    } else {
                        if u < 0xA66 {
                            if u < 0xA3E {
                                if u < 0xA35 {
                                    (0xA13 <= u && u <= 0xA28) || (0xA2A <= u && u <= 0xA30) || (0xA32 <= u && u <= 0xA33)
                                } else {
                                    (0xA35 <= u && u <= 0xA36) || (0xA38 <= u && u <= 0xA39) || u == 0xA3C
                                }
                            } else {
                                if u < 0xA51 {
                                    (0xA3E <= u && u <= 0xA42) || (0xA47 <= u && u <= 0xA48) || (0xA4B <= u && u <= 0xA4D)
                                } else {
                                    u == 0xA51 || (0xA59 <= u && u <= 0xA5C) || u == 0xA5E
                                }
                            }
                        } else {
                            if u < 0xAB2 {
                                if u < 0xA8F {
                                    (0xA66 <= u && u <= 0xA75) || (0xA81 <= u && u <= 0xA83) || (0xA85 <= u && u <= 0xA8D)
                                } else {
                                    (0xA8F <= u && u <= 0xA91) || (0xA93 <= u && u <= 0xAA8) || (0xAAA <= u && u <= 0xAB0)
                                }
                            } else {
                                if u < 0xAC7 {
                                    (0xAB2 <= u && u <= 0xAB3) || (0xAB5 <= u && u <= 0xAB9) || (0xABC <= u && u <= 0xAC5)
                                } else {
                                    (0xAC7 <= u && u <= 0xAC9) || (0xACB <= u && u <= 0xACD) || u == 0xAD0 || (0xAE0 <= u && u <= 0xAE3)
                                }
                            }
                        }
                    }
                }
            } else {
                if u < 0xCB5 {
                    if u < 0xBA8 {
                        if u < 0xB55 {
                            if u < 0xB2A {
                                if u < 0xB05 {
                                    (0xAE6 <= u && u <= 0xAEF) || (0xAF9 <= u && u <= 0xAFF) || (0xB01 <= u && u <= 0xB03)
                                } else {
                                    (0xB05 <= u && u <= 0xB0C) || (0xB0F <= u && u <= 0xB10) || (0xB13 <= u && u <= 0xB28)
                                }
                            } else {
                                if u < 0xB3C {
                                    (0xB2A <= u && u <= 0xB30) || (0xB32 <= u && u <= 0xB33) || (0xB35 <= u && u <= 0xB39)
                                } else {
                                    (0xB3C <= u && u <= 0xB44) || (0xB47 <= u && u <= 0xB48) || (0xB4B <= u && u <= 0xB4D)
                                }
                            }
                        } else {
                            if u < 0xB85 {
                                if u < 0xB66 {
                                    (0xB55 <= u && u <= 0xB57) || (0xB5C <= u && u <= 0xB5D) || (0xB5F <= u && u <= 0xB63)
                                } else {
                                    (0xB66 <= u && u <= 0xB6F) || u == 0xB71 || (0xB82 <= u && u <= 0xB83)
                                }
                            } else {
                                if u < 0xB99 {
                                    (0xB85 <= u && u <= 0xB8A) || (0xB8E <= u && u <= 0xB90) || (0xB92 <= u && u <= 0xB95)
                                } else {
                                    (0xB99 <= u && u <= 0xB9A) || u == 0xB9C || (0xB9E <= u && u <= 0xB9F) || (0xBA3 <= u && u <= 0xBA4)
                                }
                            }
                        }
                    } else {
                        if u < 0xC3C {
                            if u < 0xBD7 {
                                if u < 0xBC6 {
                                    (0xBA8 <= u && u <= 0xBAA) || (0xBAE <= u && u <= 0xBB9) || (0xBBE <= u && u <= 0xBC2)
                                } else {
                                    (0xBC6 <= u && u <= 0xBC8) || (0xBCA <= u && u <= 0xBCD) || u == 0xBD0
                                }
                            } else {
                                if u < 0xC0E {
                                    u == 0xBD7 || (0xBE6 <= u && u <= 0xBEF) || (0xC00 <= u && u <= 0xC0C)
                                } else {
                                    (0xC0E <= u && u <= 0xC10) || (0xC12 <= u && u <= 0xC28) || (0xC2A <= u && u <= 0xC39)
                                }
                            }
                        } else {
                            if u < 0xC60 {
                                if u < 0xC55 {
                                    (0xC3C <= u && u <= 0xC44) || (0xC46 <= u && u <= 0xC48) || (0xC4A <= u && u <= 0xC4D)
                                } else {
                                    (0xC55 <= u && u <= 0xC56) || (0xC58 <= u && u <= 0xC5A) || u == 0xC5D
                                }
                            } else {
                                if u < 0xC85 {
                                    (0xC60 <= u && u <= 0xC63) || (0xC66 <= u && u <= 0xC6F) || (0xC80 <= u && u <= 0xC83)
                                } else {
                                    (0xC85 <= u && u <= 0xC8C) || (0xC8E <= u && u <= 0xC90) || (0xC92 <= u && u <= 0xCA8) || (0xCAA <= u && u <= 0xCB3)
                                }
                            }
                        }
                    }
                } else {
                    if u < 0xDCF {
                        if u < 0xD46 {
                            if u < 0xCE0 {
                                if u < 0xCCA {
                                    (0xCB5 <= u && u <= 0xCB9) || (0xCBC <= u && u <= 0xCC4) || (0xCC6 <= u && u <= 0xCC8)
                                } else {
                                    (0xCCA <= u && u <= 0xCCD) || (0xCD5 <= u && u <= 0xCD6) || (0xCDD <= u && u <= 0xCDE)
                                }
                            } else {
                                if u < 0xD00 {
                                    (0xCE0 <= u && u <= 0xCE3) || (0xCE6 <= u && u <= 0xCEF) || (0xCF1 <= u && u <= 0xCF3)
                                } else {
                                    (0xD00 <= u && u <= 0xD0C) || (0xD0E <= u && u <= 0xD10) || (0xD12 <= u && u <= 0xD44)
                                }
                            }
                        } else {
                            if u < 0xD81 {
                                if u < 0xD5F {
                                    (0xD46 <= u && u <= 0xD48) || (0xD4A <= u && u <= 0xD4E) || (0xD54 <= u && u <= 0xD57)
                                } else {
                                    (0xD5F <= u && u <= 0xD63) || (0xD66 <= u && u <= 0xD6F) || (0xD7A <= u && u <= 0xD7F)
                                }
                            } else {
                                if u < 0xDB3 {
                                    (0xD81 <= u && u <= 0xD83) || (0xD85 <= u && u <= 0xD96) || (0xD9A <= u && u <= 0xDB1)
                                } else {
                                    (0xDB3 <= u && u <= 0xDBB) || u == 0xDBD || (0xDC0 <= u && u <= 0xDC6) || u == 0xDCA
                                }
                            }
                        }
                    } else {
                        if u < 0xEA5 {
                            if u < 0xE40 {
                                if u < 0xDE6 {
                                    (0xDCF <= u && u <= 0xDD4) || u == 0xDD6 || (0xDD8 <= u && u <= 0xDDF)
                                } else {
                                    (0xDE6 <= u && u <= 0xDEF) || (0xDF2 <= u && u <= 0xDF3) || (0xE01 <= u && u <= 0xE3A)
                                }
                            } else {
                                if u < 0xE84 {
                                    (0xE40 <= u && u <= 0xE4E) || (0xE50 <= u && u <= 0xE59) || (0xE81 <= u && u <= 0xE82)
                                } else {
                                    u == 0xE84 || (0xE86 <= u && u <= 0xE8A) || (0xE8C <= u && u <= 0xEA3)
                                }
                            }
                        } else {
                            if u < 0xEDC {
                                if u < 0xEC6 {
                                    u == 0xEA5 || (0xEA7 <= u && u <= 0xEBD) || (0xEC0 <= u && u <= 0xEC4)
                                } else {
                                    u == 0xEC6 || (0xEC8 <= u && u <= 0xECE) || (0xED0 <= u && u <= 0xED9)
                                }
                            } else {
                                if u < 0xF20 {
                                    (0xEDC <= u && u <= 0xEDF) || u == 0xF00 || (0xF18 <= u && u <= 0xF19)
                                } else {
                                    (0xF20 <= u && u <= 0xF29) || u == 0xF35 || u == 0xF37 || u == 0xF39
                                }
                            }
                        }
                    }
                }
            }
        } else {
            if u < 0x203F {
                if u < 0x1820 {
                    if u < 0x12C8 {
                        if u < 0x10FC {
                            if u < 0x1000 {
                                if u < 0xF86 {
                                    (0xF3E <= u && u <= 0xF47) || (0xF49 <= u && u <= 0xF6C) || (0xF71 <= u && u <= 0xF84)
                                } else {
                                    (0xF86 <= u && u <= 0xF97) || (0xF99 <= u && u <= 0xFBC) || u == 0xFC6
                                }
                            } else {
                                if u < 0x10C7 {
                                    (0x1000 <= u && u <= 0x1049) || (0x1050 <= u && u <= 0x109D) || (0x10A0 <= u && u <= 0x10C5)
                                } else {
                                    u == 0x10C7 || u == 0x10CD || (0x10D0 <= u && u <= 0x10FA)
                                }
                            }
                        } else {
                            if u < 0x128A {
                                if u < 0x1258 {
                                    (0x10FC <= u && u <= 0x1248) || (0x124A <= u && u <= 0x124D) || (0x1250 <= u && u <= 0x1256)
                                } else {
                                    u == 0x1258 || (0x125A <= u && u <= 0x125D) || (0x1260 <= u && u <= 0x1288)
                                }
                            } else {
                                if u < 0x12B8 {
                                    (0x128A <= u && u <= 0x128D) || (0x1290 <= u && u <= 0x12B0) || (0x12B2 <= u && u <= 0x12B5)
                                } else {
                                    (0x12B8 <= u && u <= 0x12BE) || u == 0x12C0 || (0x12C2 <= u && u <= 0x12C5)
                                }
                            }
                        }
                    } else {
                        if u < 0x16EE {
                            if u < 0x13A0 {
                                if u < 0x1318 {
                                    (0x12C8 <= u && u <= 0x12D6) || (0x12D8 <= u && u <= 0x1310) || (0x1312 <= u && u <= 0x1315)
                                } else {
                                    (0x1318 <= u && u <= 0x135A) || (0x135D <= u && u <= 0x135F) || (0x1380 <= u && u <= 0x138F)
                                }
                            } else {
                                if u < 0x166F {
                                    (0x13A0 <= u && u <= 0x13F5) || (0x13F8 <= u && u <= 0x13FD) || (0x1401 <= u && u <= 0x166C)
                                } else {
                                    (0x166F <= u && u <= 0x167F) || (0x1681 <= u && u <= 0x169A) || (0x16A0 <= u && u <= 0x16EA)
                                }
                            }
                        } else {
                            if u < 0x1772 {
                                if u < 0x1740 {
                                    (0x16EE <= u && u <= 0x16F8) || (0x1700 <= u && u <= 0x1715) || (0x171F <= u && u <= 0x1734)
                                } else {
                                    (0x1740 <= u && u <= 0x1753) || (0x1760 <= u && u <= 0x176C) || (0x176E <= u && u <= 0x1770)
                                }
                            } else {
                                if u < 0x17DC {
                                    (0x1772 <= u && u <= 0x1773) || (0x1780 <= u && u <= 0x17D3) || u == 0x17D7
                                } else {
                                    (0x17DC <= u && u <= 0x17DD) || (0x17E0 <= u && u <= 0x17E9) || (0x180B <= u && u <= 0x180D) || (0x180F <= u && u <= 0x1819)
                                }
                            }
                        }
                    }
                } else {
                    if u < 0x1C80 {
                        if u < 0x1A20 {
                            if u < 0x1946 {
                                if u < 0x1900 {
                                    (0x1820 <= u && u <= 0x1878) || (0x1880 <= u && u <= 0x18AA) || (0x18B0 <= u && u <= 0x18F5)
                                } else {
                                    (0x1900 <= u && u <= 0x191E) || (0x1920 <= u && u <= 0x192B) || (0x1930 <= u && u <= 0x193B)
                                }
                            } else {
                                if u < 0x19B0 {
                                    (0x1946 <= u && u <= 0x196D) || (0x1970 <= u && u <= 0x1974) || (0x1980 <= u && u <= 0x19AB)
                                } else {
                                    (0x19B0 <= u && u <= 0x19C9) || (0x19D0 <= u && u <= 0x19D9) || (0x1A00 <= u && u <= 0x1A1B)
                                }
                            }
                        } else {
                            if u < 0x1B00 {
                                if u < 0x1A90 {
                                    (0x1A20 <= u && u <= 0x1A5E) || (0x1A60 <= u && u <= 0x1A7C) || (0x1A7F <= u && u <= 0x1A89)
                                } else {
                                    (0x1A90 <= u && u <= 0x1A99) || u == 0x1AA7 || (0x1AB0 <= u && u <= 0x1ACE)
                                }
                            } else {
                                if u < 0x1B80 {
                                    (0x1B00 <= u && u <= 0x1B4C) || (0x1B50 <= u && u <= 0x1B59) || (0x1B6B <= u && u <= 0x1B73)
                                } else {
                                    (0x1B80 <= u && u <= 0x1BF3) || (0x1C00 <= u && u <= 0x1C37) || (0x1C40 <= u && u <= 0x1C49) || (0x1C4D <= u && u <= 0x1C7D)
                                }
                            }
                        }
                    } else {
                        if u < 0x1F5D {
                            if u < 0x1F18 {
                                if u < 0x1CD0 {
                                    (0x1C80 <= u && u <= 0x1C8A) || (0x1C90 <= u && u <= 0x1CBA) || (0x1CBD <= u && u <= 0x1CBF)
                                } else {
                                    (0x1CD0 <= u && u <= 0x1CD2) || (0x1CD4 <= u && u <= 0x1CFA) || (0x1D00 <= u && u <= 0x1F15)
                                }
                            } else {
                                if u < 0x1F50 {
                                    (0x1F18 <= u && u <= 0x1F1D) || (0x1F20 <= u && u <= 0x1F45) || (0x1F48 <= u && u <= 0x1F4D)
                                } else {
                                    (0x1F50 <= u && u <= 0x1F57) || u == 0x1F59 || u == 0x1F5B
                                }
                            }
                        } else {
                            if u < 0x1FC6 {
                                if u < 0x1FB6 {
                                    u == 0x1F5D || (0x1F5F <= u && u <= 0x1F7D) || (0x1F80 <= u && u <= 0x1FB4)
                                } else {
                                    (0x1FB6 <= u && u <= 0x1FBC) || u == 0x1FBE || (0x1FC2 <= u && u <= 0x1FC4)
                                }
                            } else {
                                if u < 0x1FE0 {
                                    (0x1FC6 <= u && u <= 0x1FCC) || (0x1FD0 <= u && u <= 0x1FD3) || (0x1FD6 <= u && u <= 0x1FDB)
                                } else {
                                    (0x1FE0 <= u && u <= 0x1FEC) || (0x1FF2 <= u && u <= 0x1FF4) || (0x1FF6 <= u && u <= 0x1FFC) || (0x200C <= u && u <= 0x200D)
                                }
                            }
                        }
                    }
                }
            } else {
                if u < 0x31A0 {
                    if u < 0x2D2D {
                        if u < 0x2126 {
                            if u < 0x2102 {
                                if u < 0x207F {
                                    (0x203F <= u && u <= 0x2040) || u == 0x2054 || u == 0x2071
                                } else {
                                    u == 0x207F || (0x2090 <= u && u <= 0x209C) || (0x20D0 <= u && u <= 0x20F0)
                                }
                            } else {
                                if u < 0x2115 {
                                    u == 0x2102 || u == 0x2107 || (0x210A <= u && u <= 0x2113)
                                } else {
                                    u == 0x2115 || (0x2119 <= u && u <= 0x211D) || u == 0x2124
                                }
                            }
                        } else {
                            if u < 0x214E {
                                if u < 0x212F {
                                    u == 0x2126 || u == 0x2128 || (0x212A <= u && u <= 0x212D)
                                } else {
                                    (0x212F <= u && u <= 0x2139) || (0x213C <= u && u <= 0x213F) || (0x2145 <= u && u <= 0x2149)
                                }
                            } else {
                                if u < 0x2C00 {
                                    u == 0x214E || (0x2160 <= u && u <= 0x2188) || (0x24B6 <= u && u <= 0x24E9)
                                } else {
                                    (0x2C00 <= u && u <= 0x2CE4) || (0x2CEB <= u && u <= 0x2CF3) || (0x2D00 <= u && u <= 0x2D25) || u == 0x2D27
                                }
                            }
                        }
                    } else {
                        if u < 0x2DE0 {
                            if u < 0x2DB0 {
                                if u < 0x2D7F {
                                    u == 0x2D2D || (0x2D30 <= u && u <= 0x2D67) || u == 0x2D6F
                                } else {
                                    (0x2D7F <= u && u <= 0x2D96) || (0x2DA0 <= u && u <= 0x2DA6) || (0x2DA8 <= u && u <= 0x2DAE)
                                }
                            } else {
                                if u < 0x2DC8 {
                                    (0x2DB0 <= u && u <= 0x2DB6) || (0x2DB8 <= u && u <= 0x2DBE) || (0x2DC0 <= u && u <= 0x2DC6)
                                } else {
                                    (0x2DC8 <= u && u <= 0x2DCE) || (0x2DD0 <= u && u <= 0x2DD6) || (0x2DD8 <= u && u <= 0x2DDE)
                                }
                            }
                        } else {
                            if u < 0x3041 {
                                if u < 0x3021 {
                                    (0x2DE0 <= u && u <= 0x2DFF) || u == 0x2E2F || (0x3005 <= u && u <= 0x3007)
                                } else {
                                    (0x3021 <= u && u <= 0x302F) || (0x3031 <= u && u <= 0x3035) || (0x3038 <= u && u <= 0x303C)
                                }
                            } else {
                                if u < 0x30A1 {
                                    (0x3041 <= u && u <= 0x3096) || (0x3099 <= u && u <= 0x309A) || (0x309D <= u && u <= 0x309F)
                                } else {
                                    (0x30A1 <= u && u <= 0x30FA) || (0x30FC <= u && u <= 0x30FF) || (0x3105 <= u && u <= 0x312F) || (0x3131 <= u && u <= 0x318E)
                                }
                            }
                        }
                    }
                } else {
                    if u < 0xA960 {
                        if u < 0xA78B {
                            if u < 0xA610 {
                                if u < 0x4E00 {
                                    (0x31A0 <= u && u <= 0x31BF) || (0x31F0 <= u && u <= 0x31FF) || (0x3400 <= u && u <= 0x4DBF)
                                } else {
                                    (0x4E00 <= u && u <= 0xA48C) || (0xA4D0 <= u && u <= 0xA4FD) || (0xA500 <= u && u <= 0xA60C)
                                }
                            } else {
                                if u < 0xA67F {
                                    (0xA610 <= u && u <= 0xA62B) || (0xA640 <= u && u <= 0xA672) || (0xA674 <= u && u <= 0xA67D)
                                } else {
                                    (0xA67F <= u && u <= 0xA6F1) || (0xA717 <= u && u <= 0xA71F) || (0xA722 <= u && u <= 0xA788)
                                }
                            }
                        } else {
                            if u < 0xA840 {
                                if u < 0xA7D5 {
                                    (0xA78B <= u && u <= 0xA7CD) || (0xA7D0 <= u && u <= 0xA7D1) || u == 0xA7D3
                                } else {
                                    (0xA7D5 <= u && u <= 0xA7DC) || (0xA7F2 <= u && u <= 0xA827) || u == 0xA82C
                                }
                            } else {
                                if u < 0xA8E0 {
                                    (0xA840 <= u && u <= 0xA873) || (0xA880 <= u && u <= 0xA8C5) || (0xA8D0 <= u && u <= 0xA8D9)
                                } else {
                                    (0xA8E0 <= u && u <= 0xA8F7) || u == 0xA8FB || (0xA8FD <= u && u <= 0xA92D) || (0xA930 <= u && u <= 0xA953)
                                }
                            }
                        }
                    } else {
                        if u < 0xAB01 {
                            if u < 0xAA50 {
                                if u < 0xA9E0 {
                                    (0xA960 <= u && u <= 0xA97C) || (0xA980 <= u && u <= 0xA9C0) || (0xA9CF <= u && u <= 0xA9D9)
                                } else {
                                    (0xA9E0 <= u && u <= 0xA9FE) || (0xAA00 <= u && u <= 0xAA36) || (0xAA40 <= u && u <= 0xAA4D)
                                }
                            } else {
                                if u < 0xAADB {
                                    (0xAA50 <= u && u <= 0xAA59) || (0xAA60 <= u && u <= 0xAA76) || (0xAA7A <= u && u <= 0xAAC2)
                                } else {
                                    (0xAADB <= u && u <= 0xAADD) || (0xAAE0 <= u && u <= 0xAAEF) || (0xAAF2 <= u && u <= 0xAAF6)
                                }
                            }
                        } else {
                            if u < 0xAB5C {
                                if u < 0xAB20 {
                                    (0xAB01 <= u && u <= 0xAB06) || (0xAB09 <= u && u <= 0xAB0E) || (0xAB11 <= u && u <= 0xAB16)
                                } else {
                                    (0xAB20 <= u && u <= 0xAB26) || (0xAB28 <= u && u <= 0xAB2E) || (0xAB30 <= u && u <= 0xAB5A)
                                }
                            } else {
                                if u < 0xABF0 {
                                    (0xAB5C <= u && u <= 0xAB69) || (0xAB70 <= u && u <= 0xABEA) || (0xABEC <= u && u <= 0xABED)
                                } else {
                                    (0xABF0 <= u && u <= 0xABF9) || (0xAC00 <= u && u <= 0xD7A3) || (0xD7B0 <= u && u <= 0xD7C6) || (0xD7CB <= u && u <= 0xD7FB)
                                }
                            }
                        }
                    }
                }
            }
        }
    } else {
        if u < 0x119E3 {
            if u < 0x10C00 {
                if u < 0x10400 {
                    if u < 0xFF41 {
                        if u < 0xFD50 {
                            if u < 0xFB38 {
                                if u < 0xFB13 {
                                    (0xF900 <= u && u <= 0xFA6D) || (0xFA70 <= u && u <= 0xFAD9) || (0xFB00 <= u && u <= 0xFB06)
                                } else {
                                    (0xFB13 <= u && u <= 0xFB17) || (0xFB1D <= u && u <= 0xFB28) || (0xFB2A <= u && u <= 0xFB36)
                                }
                            } else {
                                if u < 0xFB43 {
                                    (0xFB38 <= u && u <= 0xFB3C) || u == 0xFB3E || (0xFB40 <= u && u <= 0xFB41)
                                } else {
                                    (0xFB43 <= u && u <= 0xFB44) || (0xFB46 <= u && u <= 0xFBB1) || (0xFBD3 <= u && u <= 0xFD3D)
                                }
                            }
                        } else {
                            if u < 0xFE4D {
                                if u < 0xFE00 {
                                    (0xFD50 <= u && u <= 0xFD8F) || (0xFD92 <= u && u <= 0xFDC7) || (0xFDF0 <= u && u <= 0xFDFB)
                                } else {
                                    (0xFE00 <= u && u <= 0xFE0F) || (0xFE20 <= u && u <= 0xFE2F) || (0xFE33 <= u && u <= 0xFE34)
                                }
                            } else {
                                if u < 0xFF10 {
                                    (0xFE4D <= u && u <= 0xFE4F) || (0xFE70 <= u && u <= 0xFE74) || (0xFE76 <= u && u <= 0xFEFC)
                                } else {
                                    (0xFF10 <= u && u <= 0xFF19) || (0xFF21 <= u && u <= 0xFF3A) || u == 0xFF3F
                                }
                            }
                        }
                    } else {
                        if u < 0x10080 {
                            if u < 0x10000 {
                                if u < 0xFFCA {
                                    (0xFF41 <= u && u <= 0xFF5A) || (0xFF66 <= u && u <= 0xFFBE) || (0xFFC2 <= u && u <= 0xFFC7)
                                } else {
                                    (0xFFCA <= u && u <= 0xFFCF) || (0xFFD2 <= u && u <= 0xFFD7) || (0xFFDA <= u && u <= 0xFFDC)
                                }
                            } else {
                                if u < 0x1003C {
                                    (0x10000 <= u && u <= 0x1000B) || (0x1000D <= u && u <= 0x10026) || (0x10028 <= u && u <= 0x1003A)
                                } else {
                                    (0x1003C <= u && u <= 0x1003D) || (0x1003F <= u && u <= 0x1004D) || (0x10050 <= u && u <= 0x1005D)
                                }
                            }
                        } else {
                            if u < 0x10300 {
                                if u < 0x10280 {
                                    (0x10080 <= u && u <= 0x100FA) || (0x10140 <= u && u <= 0x10174) || u == 0x101FD
                                } else {
                                    (0x10280 <= u && u <= 0x1029C) || (0x102A0 <= u && u <= 0x102D0) || u == 0x102E0
                                }
                            } else {
                                if u < 0x10380 {
                                    (0x10300 <= u && u <= 0x1031F) || (0x1032D <= u && u <= 0x1034A) || (0x10350 <= u && u <= 0x1037A)
                                } else {
                                    (0x10380 <= u && u <= 0x1039D) || (0x103A0 <= u && u <= 0x103C3) || (0x103C8 <= u && u <= 0x103CF) || (0x103D1 <= u && u <= 0x103D5)
                                }
                            }
                        }
                    }
                } else {
                    if u < 0x1083C {
                        if u < 0x105B3 {
                            if u < 0x10570 {
                                if u < 0x104D8 {
                                    (0x10400 <= u && u <= 0x1049D) || (0x104A0 <= u && u <= 0x104A9) || (0x104B0 <= u && u <= 0x104D3)
                                } else {
                                    (0x104D8 <= u && u <= 0x104FB) || (0x10500 <= u && u <= 0x10527) || (0x10530 <= u && u <= 0x10563)
                                }
                            } else {
                                if u < 0x10594 {
                                    (0x10570 <= u && u <= 0x1057A) || (0x1057C <= u && u <= 0x1058A) || (0x1058C <= u && u <= 0x10592)
                                } else {
                                    (0x10594 <= u && u <= 0x10595) || (0x10597 <= u && u <= 0x105A1) || (0x105A3 <= u && u <= 0x105B1)
                                }
                            }
                        } else {
                            if u < 0x10780 {
                                if u < 0x10600 {
                                    (0x105B3 <= u && u <= 0x105B9) || (0x105BB <= u && u <= 0x105BC) || (0x105C0 <= u && u <= 0x105F3)
                                } else {
                                    (0x10600 <= u && u <= 0x10736) || (0x10740 <= u && u <= 0x10755) || (0x10760 <= u && u <= 0x10767)
                                }
                            } else {
                                if u < 0x10800 {
                                    (0x10780 <= u && u <= 0x10785) || (0x10787 <= u && u <= 0x107B0) || (0x107B2 <= u && u <= 0x107BA)
                                } else {
                                    (0x10800 <= u && u <= 0x10805) || u == 0x10808 || (0x1080A <= u && u <= 0x10835) || (0x10837 <= u && u <= 0x10838)
                                }
                            }
                        }
                    } else {
                        if u < 0x10A0C {
                            if u < 0x10900 {
                                if u < 0x10880 {
                                    u == 0x1083C || (0x1083F <= u && u <= 0x10855) || (0x10860 <= u && u <= 0x10876)
                                } else {
                                    (0x10880 <= u && u <= 0x1089E) || (0x108E0 <= u && u <= 0x108F2) || (0x108F4 <= u && u <= 0x108F5)
                                }
                            } else {
                                if u < 0x109BE {
                                    (0x10900 <= u && u <= 0x10915) || (0x10920 <= u && u <= 0x10939) || (0x10980 <= u && u <= 0x109B7)
                                } else {
                                    (0x109BE <= u && u <= 0x109BF) || (0x10A00 <= u && u <= 0x10A03) || (0x10A05 <= u && u <= 0x10A06)
                                }
                            }
                        } else {
                            if u < 0x10A80 {
                                if u < 0x10A38 {
                                    (0x10A0C <= u && u <= 0x10A13) || (0x10A15 <= u && u <= 0x10A17) || (0x10A19 <= u && u <= 0x10A35)
                                } else {
                                    (0x10A38 <= u && u <= 0x10A3A) || u == 0x10A3F || (0x10A60 <= u && u <= 0x10A7C)
                                }
                            } else {
                                if u < 0x10B00 {
                                    (0x10A80 <= u && u <= 0x10A9C) || (0x10AC0 <= u && u <= 0x10AC7) || (0x10AC9 <= u && u <= 0x10AE6)
                                } else {
                                    (0x10B00 <= u && u <= 0x10B35) || (0x10B40 <= u && u <= 0x10B55) || (0x10B60 <= u && u <= 0x10B72) || (0x10B80 <= u && u <= 0x10B91)
                                }
                            }
                        }
                    }
                }
            } else {
                if u < 0x1133B {
                    if u < 0x11136 {
                        if u < 0x10EFC {
                            if u < 0x10D69 {
                                if u < 0x10D00 {
                                    (0x10C00 <= u && u <= 0x10C48) || (0x10C80 <= u && u <= 0x10CB2) || (0x10CC0 <= u && u <= 0x10CF2)
                                } else {
                                    (0x10D00 <= u && u <= 0x10D27) || (0x10D30 <= u && u <= 0x10D39) || (0x10D40 <= u && u <= 0x10D65)
                                }
                            } else {
                                if u < 0x10EAB {
                                    (0x10D69 <= u && u <= 0x10D6D) || (0x10D6F <= u && u <= 0x10D85) || (0x10E80 <= u && u <= 0x10EA9)
                                } else {
                                    (0x10EAB <= u && u <= 0x10EAC) || (0x10EB0 <= u && u <= 0x10EB1) || (0x10EC2 <= u && u <= 0x10EC4)
                                }
                            }
                        } else {
                            if u < 0x11000 {
                                if u < 0x10F70 {
                                    (0x10EFC <= u && u <= 0x10F1C) || u == 0x10F27 || (0x10F30 <= u && u <= 0x10F50)
                                } else {
                                    (0x10F70 <= u && u <= 0x10F85) || (0x10FB0 <= u && u <= 0x10FC4) || (0x10FE0 <= u && u <= 0x10FF6)
                                }
                            } else {
                                if u < 0x110C2 {
                                    (0x11000 <= u && u <= 0x11046) || (0x11066 <= u && u <= 0x11075) || (0x1107F <= u && u <= 0x110BA)
                                } else {
                                    u == 0x110C2 || (0x110D0 <= u && u <= 0x110E8) || (0x110F0 <= u && u <= 0x110F9) || (0x11100 <= u && u <= 0x11134)
                                }
                            }
                        }
                    } else {
                        if u < 0x11288 {
                            if u < 0x111CE {
                                if u < 0x11176 {
                                    (0x11136 <= u && u <= 0x1113F) || (0x11144 <= u && u <= 0x11147) || (0x11150 <= u && u <= 0x11173)
                                } else {
                                    u == 0x11176 || (0x11180 <= u && u <= 0x111C4) || (0x111C9 <= u && u <= 0x111CC)
                                }
                            } else {
                                if u < 0x11213 {
                                    (0x111CE <= u && u <= 0x111DA) || u == 0x111DC || (0x11200 <= u && u <= 0x11211)
                                } else {
                                    (0x11213 <= u && u <= 0x11237) || (0x1123E <= u && u <= 0x11241) || (0x11280 <= u && u <= 0x11286)
                                }
                            }
                        } else {
                            if u < 0x11300 {
                                if u < 0x1129F {
                                    u == 0x11288 || (0x1128A <= u && u <= 0x1128D) || (0x1128F <= u && u <= 0x1129D)
                                } else {
                                    (0x1129F <= u && u <= 0x112A8) || (0x112B0 <= u && u <= 0x112EA) || (0x112F0 <= u && u <= 0x112F9)
                                }
                            } else {
                                if u < 0x11313 {
                                    (0x11300 <= u && u <= 0x11303) || (0x11305 <= u && u <= 0x1130C) || (0x1130F <= u && u <= 0x11310)
                                } else {
                                    (0x11313 <= u && u <= 0x11328) || (0x1132A <= u && u <= 0x11330) || (0x11332 <= u && u <= 0x11333) || (0x11335 <= u && u <= 0x11339)
                                }
                            }
                        }
                    }
                } else {
                    if u < 0x115B8 {
                        if u < 0x113B7 {
                            if u < 0x11366 {
                                if u < 0x11350 {
                                    (0x1133B <= u && u <= 0x11344) || (0x11347 <= u && u <= 0x11348) || (0x1134B <= u && u <= 0x1134D)
                                } else {
                                    u == 0x11350 || u == 0x11357 || (0x1135D <= u && u <= 0x11363)
                                }
                            } else {
                                if u < 0x1138B {
                                    (0x11366 <= u && u <= 0x1136C) || (0x11370 <= u && u <= 0x11374) || (0x11380 <= u && u <= 0x11389)
                                } else {
                                    u == 0x1138B || u == 0x1138E || (0x11390 <= u && u <= 0x113B5)
                                }
                            }
                        } else {
                            if u < 0x11400 {
                                if u < 0x113C7 {
                                    (0x113B7 <= u && u <= 0x113C0) || u == 0x113C2 || u == 0x113C5
                                } else {
                                    (0x113C7 <= u && u <= 0x113CA) || (0x113CC <= u && u <= 0x113D3) || (0x113E1 <= u && u <= 0x113E2)
                                }
                            } else {
                                if u < 0x11480 {
                                    (0x11400 <= u && u <= 0x1144A) || (0x11450 <= u && u <= 0x11459) || (0x1145E <= u && u <= 0x11461)
                                } else {
                                    (0x11480 <= u && u <= 0x114C5) || u == 0x114C7 || (0x114D0 <= u && u <= 0x114D9) || (0x11580 <= u && u <= 0x115B5)
                                }
                            }
                        }
                    } else {
                        if u < 0x11800 {
                            if u < 0x116C0 {
                                if u < 0x11644 {
                                    (0x115B8 <= u && u <= 0x115C0) || (0x115D8 <= u && u <= 0x115DD) || (0x11600 <= u && u <= 0x11640)
                                } else {
                                    u == 0x11644 || (0x11650 <= u && u <= 0x11659) || (0x11680 <= u && u <= 0x116B8)
                                }
                            } else {
                                if u < 0x1171D {
                                    (0x116C0 <= u && u <= 0x116C9) || (0x116D0 <= u && u <= 0x116E3) || (0x11700 <= u && u <= 0x1171A)
                                } else {
                                    (0x1171D <= u && u <= 0x1172B) || (0x11730 <= u && u <= 0x11739) || (0x11740 <= u && u <= 0x11746)
                                }
                            }
                        } else {
                            if u < 0x11918 {
                                if u < 0x11909 {
                                    (0x11800 <= u && u <= 0x1183A) || (0x118A0 <= u && u <= 0x118E9) || (0x118FF <= u && u <= 0x11906)
                                } else {
                                    u == 0x11909 || (0x1190C <= u && u <= 0x11913) || (0x11915 <= u && u <= 0x11916)
                                }
                            } else {
                                if u < 0x11950 {
                                    (0x11918 <= u && u <= 0x11935) || (0x11937 <= u && u <= 0x11938) || (0x1193B <= u && u <= 0x11943)
                                } else {
                                    (0x11950 <= u && u <= 0x11959) || (0x119A0 <= u && u <= 0x119A7) || (0x119AA <= u && u <= 0x119D7) || (0x119DA <= u && u <= 0x119E1)
                                }
                            }
                        }
                    }
                }
            }
        } else {
            if u < 0x1D4C5 {
                if u < 0x16AF0 {
                    if u < 0x11D6A {
                        if u < 0x11C72 {
                            if u < 0x11BC0 {
                                if u < 0x11A50 {
                                    (0x119E3 <= u && u <= 0x119E4) || (0x11A00 <= u && u <= 0x11A3E) || u == 0x11A47
                                } else {
                                    (0x11A50 <= u && u <= 0x11A99) || u == 0x11A9D || (0x11AB0 <= u && u <= 0x11AF8)
                                }
                            } else {
                                if u < 0x11C0A {
                                    (0x11BC0 <= u && u <= 0x11BE0) || (0x11BF0 <= u && u <= 0x11BF9) || (0x11C00 <= u && u <= 0x11C08)
                                } else {
                                    (0x11C0A <= u && u <= 0x11C36) || (0x11C38 <= u && u <= 0x11C40) || (0x11C50 <= u && u <= 0x11C59)
                                }
                            }
                        } else {
                            if u < 0x11D3A {
                                if u < 0x11D00 {
                                    (0x11C72 <= u && u <= 0x11C8F) || (0x11C92 <= u && u <= 0x11CA7) || (0x11CA9 <= u && u <= 0x11CB6)
                                } else {
                                    (0x11D00 <= u && u <= 0x11D06) || (0x11D08 <= u && u <= 0x11D09) || (0x11D0B <= u && u <= 0x11D36)
                                }
                            } else {
                                if u < 0x11D50 {
                                    u == 0x11D3A || (0x11D3C <= u && u <= 0x11D3D) || (0x11D3F <= u && u <= 0x11D47)
                                } else {
                                    (0x11D50 <= u && u <= 0x11D59) || (0x11D60 <= u && u <= 0x11D65) || (0x11D67 <= u && u <= 0x11D68)
                                }
                            }
                        }
                    } else {
                        if u < 0x12480 {
                            if u < 0x11F12 {
                                if u < 0x11DA0 {
                                    (0x11D6A <= u && u <= 0x11D8E) || (0x11D90 <= u && u <= 0x11D91) || (0x11D93 <= u && u <= 0x11D98)
                                } else {
                                    (0x11DA0 <= u && u <= 0x11DA9) || (0x11EE0 <= u && u <= 0x11EF6) || (0x11F00 <= u && u <= 0x11F10)
                                }
                            } else {
                                if u < 0x11FB0 {
                                    (0x11F12 <= u && u <= 0x11F3A) || (0x11F3E <= u && u <= 0x11F42) || (0x11F50 <= u && u <= 0x11F5A)
                                } else {
                                    u == 0x11FB0 || (0x12000 <= u && u <= 0x12399) || (0x12400 <= u && u <= 0x1246E)
                                }
                            }
                        } else {
                            if u < 0x16100 {
                                if u < 0x13440 {
                                    (0x12480 <= u && u <= 0x12543) || (0x12F90 <= u && u <= 0x12FF0) || (0x13000 <= u && u <= 0x1342F)
                                } else {
                                    (0x13440 <= u && u <= 0x13455) || (0x13460 <= u && u <= 0x143FA) || (0x14400 <= u && u <= 0x14646)
                                }
                            } else {
                                if u < 0x16A60 {
                                    (0x16100 <= u && u <= 0x16139) || (0x16800 <= u && u <= 0x16A38) || (0x16A40 <= u && u <= 0x16A5E)
                                } else {
                                    (0x16A60 <= u && u <= 0x16A69) || (0x16A70 <= u && u <= 0x16ABE) || (0x16AC0 <= u && u <= 0x16AC9) || (0x16AD0 <= u && u <= 0x16AED)
                                }
                            }
                        }
                    }
                } else {
                    if u < 0x1B164 {
                        if u < 0x16FE0 {
                            if u < 0x16D40 {
                                if u < 0x16B50 {
                                    (0x16AF0 <= u && u <= 0x16AF4) || (0x16B00 <= u && u <= 0x16B36) || (0x16B40 <= u && u <= 0x16B43)
                                } else {
                                    (0x16B50 <= u && u <= 0x16B59) || (0x16B63 <= u && u <= 0x16B77) || (0x16B7D <= u && u <= 0x16B8F)
                                }
                            } else {
                                if u < 0x16F00 {
                                    (0x16D40 <= u && u <= 0x16D6C) || (0x16D70 <= u && u <= 0x16D79) || (0x16E40 <= u && u <= 0x16E7F)
                                } else {
                                    (0x16F00 <= u && u <= 0x16F4A) || (0x16F4F <= u && u <= 0x16F87) || (0x16F8F <= u && u <= 0x16F9F)
                                }
                            }
                        } else {
                            if u < 0x1AFF0 {
                                if u < 0x17000 {
                                    (0x16FE0 <= u && u <= 0x16FE1) || (0x16FE3 <= u && u <= 0x16FE4) || (0x16FF0 <= u && u <= 0x16FF1)
                                } else {
                                    (0x17000 <= u && u <= 0x187F7) || (0x18800 <= u && u <= 0x18CD5) || (0x18CFF <= u && u <= 0x18D08)
                                }
                            } else {
                                if u < 0x1B000 {
                                    (0x1AFF0 <= u && u <= 0x1AFF3) || (0x1AFF5 <= u && u <= 0x1AFFB) || (0x1AFFD <= u && u <= 0x1AFFE)
                                } else {
                                    (0x1B000 <= u && u <= 0x1B122) || u == 0x1B132 || (0x1B150 <= u && u <= 0x1B152) || u == 0x1B155
                                }
                            }
                        }
                    } else {
                        if u < 0x1D17B {
                            if u < 0x1BC9D {
                                if u < 0x1BC70 {
                                    (0x1B164 <= u && u <= 0x1B167) || (0x1B170 <= u && u <= 0x1B2FB) || (0x1BC00 <= u && u <= 0x1BC6A)
                                } else {
                                    (0x1BC70 <= u && u <= 0x1BC7C) || (0x1BC80 <= u && u <= 0x1BC88) || (0x1BC90 <= u && u <= 0x1BC99)
                                }
                            } else {
                                if u < 0x1CF30 {
                                    (0x1BC9D <= u && u <= 0x1BC9E) || (0x1CCF0 <= u && u <= 0x1CCF9) || (0x1CF00 <= u && u <= 0x1CF2D)
                                } else {
                                    (0x1CF30 <= u && u <= 0x1CF46) || (0x1D165 <= u && u <= 0x1D169) || (0x1D16D <= u && u <= 0x1D172)
                                }
                            }
                        } else {
                            if u < 0x1D49E {
                                if u < 0x1D242 {
                                    (0x1D17B <= u && u <= 0x1D182) || (0x1D185 <= u && u <= 0x1D18B) || (0x1D1AA <= u && u <= 0x1D1AD)
                                } else {
                                    (0x1D242 <= u && u <= 0x1D244) || (0x1D400 <= u && u <= 0x1D454) || (0x1D456 <= u && u <= 0x1D49C)
                                }
                            } else {
                                if u < 0x1D4A9 {
                                    (0x1D49E <= u && u <= 0x1D49F) || u == 0x1D4A2 || (0x1D4A5 <= u && u <= 0x1D4A6)
                                } else {
                                    (0x1D4A9 <= u && u <= 0x1D4AC) || (0x1D4AE <= u && u <= 0x1D4B9) || u == 0x1D4BB || (0x1D4BD <= u && u <= 0x1D4C3)
                                }
                            }
                        }
                    }
                }
            } else {
                if u < 0x1E8D0 {
                    if u < 0x1DA84 {
                        if u < 0x1D6DC {
                            if u < 0x1D540 {
                                if u < 0x1D516 {
                                    (0x1D4C5 <= u && u <= 0x1D505) || (0x1D507 <= u && u <= 0x1D50A) || (0x1D50D <= u && u <= 0x1D514)
                                } else {
                                    (0x1D516 <= u && u <= 0x1D51C) || (0x1D51E <= u && u <= 0x1D539) || (0x1D53B <= u && u <= 0x1D53E)
                                }
                            } else {
                                if u < 0x1D552 {
                                    (0x1D540 <= u && u <= 0x1D544) || u == 0x1D546 || (0x1D54A <= u && u <= 0x1D550)
                                } else {
                                    (0x1D552 <= u && u <= 0x1D6A5) || (0x1D6A8 <= u && u <= 0x1D6C0) || (0x1D6C2 <= u && u <= 0x1D6DA)
                                }
                            }
                        } else {
                            if u < 0x1D78A {
                                if u < 0x1D736 {
                                    (0x1D6DC <= u && u <= 0x1D6FA) || (0x1D6FC <= u && u <= 0x1D714) || (0x1D716 <= u && u <= 0x1D734)
                                } else {
                                    (0x1D736 <= u && u <= 0x1D74E) || (0x1D750 <= u && u <= 0x1D76E) || (0x1D770 <= u && u <= 0x1D788)
                                }
                            } else {
                                if u < 0x1D7CE {
                                    (0x1D78A <= u && u <= 0x1D7A8) || (0x1D7AA <= u && u <= 0x1D7C2) || (0x1D7C4 <= u && u <= 0x1D7CB)
                                } else {
                                    (0x1D7CE <= u && u <= 0x1D7FF) || (0x1DA00 <= u && u <= 0x1DA36) || (0x1DA3B <= u && u <= 0x1DA6C) || u == 0x1DA75
                                }
                            }
                        }
                    } else {
                        if u < 0x1E100 {
                            if u < 0x1E008 {
                                if u < 0x1DF00 {
                                    u == 0x1DA84 || (0x1DA9B <= u && u <= 0x1DA9F) || (0x1DAA1 <= u && u <= 0x1DAAF)
                                } else {
                                    (0x1DF00 <= u && u <= 0x1DF1E) || (0x1DF25 <= u && u <= 0x1DF2A) || (0x1E000 <= u && u <= 0x1E006)
                                }
                            } else {
                                if u < 0x1E026 {
                                    (0x1E008 <= u && u <= 0x1E018) || (0x1E01B <= u && u <= 0x1E021) || (0x1E023 <= u && u <= 0x1E024)
                                } else {
                                    (0x1E026 <= u && u <= 0x1E02A) || (0x1E030 <= u && u <= 0x1E06D) || u == 0x1E08F
                                }
                            }
                        } else {
                            if u < 0x1E4D0 {
                                if u < 0x1E14E {
                                    (0x1E100 <= u && u <= 0x1E12C) || (0x1E130 <= u && u <= 0x1E13D) || (0x1E140 <= u && u <= 0x1E149)
                                } else {
                                    u == 0x1E14E || (0x1E290 <= u && u <= 0x1E2AE) || (0x1E2C0 <= u && u <= 0x1E2F9)
                                }
                            } else {
                                if u < 0x1E7E8 {
                                    (0x1E4D0 <= u && u <= 0x1E4F9) || (0x1E5D0 <= u && u <= 0x1E5FA) || (0x1E7E0 <= u && u <= 0x1E7E6)
                                } else {
                                    (0x1E7E8 <= u && u <= 0x1E7EB) || (0x1E7ED <= u && u <= 0x1E7EE) || (0x1E7F0 <= u && u <= 0x1E7FE) || (0x1E800 <= u && u <= 0x1E8C4)
                                }
                            }
                        }
                    }
                } else {
                    if u < 0x1EE64 {
                        if u < 0x1EE42 {
                            if u < 0x1EE24 {
                                if u < 0x1EE00 {
                                    (0x1E8D0 <= u && u <= 0x1E8D6) || (0x1E900 <= u && u <= 0x1E94B) || (0x1E950 <= u && u <= 0x1E959)
                                } else {
                                    (0x1EE00 <= u && u <= 0x1EE03) || (0x1EE05 <= u && u <= 0x1EE1F) || (0x1EE21 <= u && u <= 0x1EE22)
                                }
                            } else {
                                if u < 0x1EE34 {
                                    u == 0x1EE24 || u == 0x1EE27 || (0x1EE29 <= u && u <= 0x1EE32)
                                } else {
                                    (0x1EE34 <= u && u <= 0x1EE37) || u == 0x1EE39 || u == 0x1EE3B
                                }
                            }
                        } else {
                            if u < 0x1EE54 {
                                if u < 0x1EE4B {
                                    u == 0x1EE42 || u == 0x1EE47 || u == 0x1EE49
                                } else {
                                    u == 0x1EE4B || (0x1EE4D <= u && u <= 0x1EE4F) || (0x1EE51 <= u && u <= 0x1EE52)
                                }
                            } else {
                                if u < 0x1EE5B {
                                    u == 0x1EE54 || u == 0x1EE57 || u == 0x1EE59
                                } else {
                                    u == 0x1EE5B || u == 0x1EE5D || u == 0x1EE5F || (0x1EE61 <= u && u <= 0x1EE62)
                                }
                            }
                        }
                    } else {
                        if u < 0x1F150 {
                            if u < 0x1EE80 {
                                if u < 0x1EE74 {
                                    u == 0x1EE64 || (0x1EE67 <= u && u <= 0x1EE6A) || (0x1EE6C <= u && u <= 0x1EE72)
                                } else {
                                    (0x1EE74 <= u && u <= 0x1EE77) || (0x1EE79 <= u && u <= 0x1EE7C) || u == 0x1EE7E
                                }
                            } else {
                                if u < 0x1EEA5 {
                                    (0x1EE80 <= u && u <= 0x1EE89) || (0x1EE8B <= u && u <= 0x1EE9B) || (0x1EEA1 <= u && u <= 0x1EEA3)
                                } else {
                                    (0x1EEA5 <= u && u <= 0x1EEA9) || (0x1EEAB <= u && u <= 0x1EEBB) || (0x1F130 <= u && u <= 0x1F149)
                                }
                            }
                        } else {
                            if u < 0x2B820 {
                                if u < 0x20000 {
                                    (0x1F150 <= u && u <= 0x1F169) || (0x1F170 <= u && u <= 0x1F189) || (0x1FBF0 <= u && u <= 0x1FBF9)
                                } else {
                                    (0x20000 <= u && u <= 0x2A6DF) || (0x2A700 <= u && u <= 0x2B739) || (0x2B740 <= u && u <= 0x2B81D)
                                }
                            } else {
                                if u < 0x2F800 {
                                    (0x2B820 <= u && u <= 0x2CEA1) || (0x2CEB0 <= u && u <= 0x2EBE0) || (0x2EBF0 <= u && u <= 0x2EE5D)
                                } else {
                                    (0x2F800 <= u && u <= 0x2FA1D) || (0x30000 <= u && u <= 0x3134A) || (0x31350 <= u && u <= 0x323AF) || (0xE0100 <= u && u <= 0xE01EF)
                                }
                            }
                        }
                    }
                }
            }
        }
    }
}

} // verus!
